//! The relationships held in memory.
//!
//! `RelationshipStore` keeps at most one record for each unordered pair of
//! accounts and is changed only through the transitions of the state machine.
//! It runs the same planned statements that are issued against a database.

use vstd::prelude::*;
use crate::errors::RelationError;
use crate::pair::get_relation_pk;
use crate::pager::ascending;
use crate::relationships::{
    accept_request_spec, awaits_in, canonical_keys, deny_request_spec, friends_in,
    remove_friendship_spec, send_request_spec, status_in, Outcome, Relations, Relationship,
    Standing,
};
use crate::status::RelationStatus;
use crate::storage::{
    conclude, plan_accept_request, plan_deny_request, plan_remove_friendship,
    plan_send_request, planned_writes_are_canonical, planned_writes_realize_transitions,
    WriteIntent, WriteReport,
};

verus! {

spec fn holds_key(rows: Seq<Relationship>, key: (i64, i64)) -> bool {
    exists|i: int| 0 <= i < rows.len() && (#[trigger] rows[i]).key() == key
}

spec fn place_of(rows: Seq<Relationship>, key: (i64, i64)) -> int {
    choose|i: int| 0 <= i < rows.len() && (#[trigger] rows[i]).key() == key
}

spec fn one_row_per_pair(rows: Seq<Relationship>) -> bool {
    forall|i: int, j: int|
        0 <= i < j < rows.len() ==> (#[trigger] rows[i]).key() != (#[trigger] rows[j]).key()
}

spec fn rows_ordered(rows: Seq<Relationship>) -> bool {
    forall|i: int| 0 <= i < rows.len() ==> (#[trigger] rows[i]).key().0 < rows[i].key().1
}

spec fn relations_of(rows: Seq<Relationship>) -> Relations {
    Map::new(
        |key: (i64, i64)| holds_key(rows, key),
        |key: (i64, i64)| rows[place_of(rows, key)].standing(),
    )
}

proof fn row_is_related(rows: Seq<Relationship>, i: int)
    requires
        one_row_per_pair(rows),
        0 <= i < rows.len(),
    ensures
        relations_of(rows).dom().contains(rows[i].key()),
        relations_of(rows)[rows[i].key()] == rows[i].standing(),
        place_of(rows, rows[i].key()) == i,
{
    let key = rows[i].key();
    assert(holds_key(rows, key));
    let j = place_of(rows, key);
    assert(0 <= j < rows.len() && rows[j].key() == key);
    if j < i {
        assert(rows[j].key() != rows[i].key());
    } else if i < j {
        assert(rows[i].key() != rows[j].key());
    }
}

proof fn pushed_row_is_inserted(rows: Seq<Relationship>, row: Relationship)
    requires
        one_row_per_pair(rows),
        rows_ordered(rows),
        !holds_key(rows, row.key()),
        row.key().0 < row.key().1,
    ensures
        one_row_per_pair(rows.push(row)),
        rows_ordered(rows.push(row)),
        relations_of(rows.push(row)) == relations_of(rows).insert(row.key(), row.standing()),
{
    let more = rows.push(row);
    assert forall|i: int| 0 <= i < more.len() implies (#[trigger] more[i]).key().0
        < more[i].key().1 by {
        if i < rows.len() {
            assert(more[i] == rows[i]);
        }
    }
    assert forall|i: int, j: int| 0 <= i < j < more.len() implies (#[trigger] more[i]).key() != (
    #[trigger] more[j]).key() by {
        if j == rows.len() {
            assert(more[i] == rows[i]);
            if rows[i].key() == row.key() {
                assert(holds_key(rows, row.key()));
            }
        } else {
            assert(more[i] == rows[i] && more[j] == rows[j]);
        }
    }
    let wanted = relations_of(rows).insert(row.key(), row.standing());
    assert forall|key: (i64, i64)| relations_of(more).dom().contains(key) == wanted.dom().contains(
        key,
    ) by {
        if holds_key(more, key) {
            let i = place_of(more, key);
            if i < rows.len() {
                assert(rows[i] == more[i]);
                assert(holds_key(rows, key));
            }
        }
        if holds_key(rows, key) {
            let i = place_of(rows, key);
            assert(more[i] == rows[i]);
            assert(holds_key(more, key));
        }
        if key == row.key() {
            assert(more[rows.len() as int].key() == key);
            assert(holds_key(more, key));
        }
    }
    assert forall|key: (i64, i64)| relations_of(more).dom().contains(key) implies relations_of(
        more,
    )[key] == wanted[key] by {
        let i = place_of(more, key);
        row_is_related(more, i);
        if i < rows.len() {
            assert(more[i] == rows[i]);
            row_is_related(rows, i);
        }
    }
    assert(relations_of(more) =~= wanted);
}

proof fn replaced_row_is_inserted(rows: Seq<Relationship>, i: int, row: Relationship)
    requires
        one_row_per_pair(rows),
        rows_ordered(rows),
        0 <= i < rows.len(),
        row.key() == rows[i].key(),
    ensures
        one_row_per_pair(rows.update(i, row)),
        rows_ordered(rows.update(i, row)),
        relations_of(rows.update(i, row)) == relations_of(rows).insert(row.key(), row.standing()),
{
    let changed = rows.update(i, row);
    assert forall|k: int| 0 <= k < changed.len() implies (#[trigger] changed[k]).key().0
        < changed[k].key().1 by {
        assert(changed[k].key() == rows[k].key());
    }
    assert forall|a: int, b: int| 0 <= a < b < changed.len() implies (#[trigger] changed[a]).key()
        != (#[trigger] changed[b]).key() by {
        assert(changed[a].key() == rows[a].key());
        assert(changed[b].key() == rows[b].key());
    }
    let wanted = relations_of(rows).insert(row.key(), row.standing());
    assert forall|key: (i64, i64)| relations_of(changed).dom().contains(key)
        == wanted.dom().contains(key) by {
        if holds_key(changed, key) {
            let j = place_of(changed, key);
            assert(rows[j].key() == key);
            assert(holds_key(rows, key));
        }
        if holds_key(rows, key) {
            let j = place_of(rows, key);
            assert(changed[j].key() == key);
            assert(holds_key(changed, key));
        }
        if key == row.key() {
            assert(changed[i].key() == key);
            assert(holds_key(changed, key));
        }
    }
    assert forall|key: (i64, i64)| relations_of(changed).dom().contains(key) implies relations_of(
        changed,
    )[key] == wanted[key] by {
        let j = place_of(changed, key);
        row_is_related(changed, j);
        if j != i {
            assert(changed[j] == rows[j]);
            row_is_related(rows, j);
            assert(rows[j].key() != rows[i].key()) by {
                if j < i {
                    assert(rows[j].key() != rows[i].key());
                } else {
                    assert(rows[i].key() != rows[j].key());
                }
            }
        }
    }
    assert(relations_of(changed) =~= wanted);
}

proof fn dropped_row_is_removed(rows: Seq<Relationship>, i: int)
    requires
        one_row_per_pair(rows),
        rows_ordered(rows),
        0 <= i < rows.len(),
    ensures
        one_row_per_pair(rows.remove(i)),
        rows_ordered(rows.remove(i)),
        relations_of(rows.remove(i)) == relations_of(rows).remove(rows[i].key()),
{
    let fewer = rows.remove(i);
    assert forall|a: int| 0 <= a < fewer.len() implies (#[trigger] fewer[a]).key().0
        < fewer[a].key().1 by {
        let a0 = if a < i { a } else { a + 1 };
        assert(fewer[a] == rows[a0]);
    }
    assert forall|a: int, b: int| 0 <= a < b < fewer.len() implies (#[trigger] fewer[a]).key() != (
    #[trigger] fewer[b]).key() by {
        let a0 = if a < i { a } else { a + 1 };
        let b0 = if b < i { b } else { b + 1 };
        assert(fewer[a] == rows[a0] && fewer[b] == rows[b0]);
        assert(rows[a0].key() != rows[b0].key());
    }
    let wanted = relations_of(rows).remove(rows[i].key());
    assert forall|key: (i64, i64)| relations_of(fewer).dom().contains(key) == wanted.dom().contains(
        key,
    ) by {
        if holds_key(fewer, key) {
            let a = place_of(fewer, key);
            let a0 = if a < i { a } else { a + 1 };
            assert(fewer[a] == rows[a0]);
            assert(holds_key(rows, key));
            if a0 < i {
                assert(rows[a0].key() != rows[i].key());
            } else {
                assert(rows[i].key() != rows[a0].key());
            }
        }
        if holds_key(rows, key) && key != rows[i].key() {
            let j = place_of(rows, key);
            let a = if j < i { j } else { j - 1 };
            assert(fewer[a] == rows[j]);
            assert(holds_key(fewer, key));
        }
    }
    assert forall|key: (i64, i64)| relations_of(fewer).dom().contains(key) implies relations_of(
        fewer,
    )[key] == wanted[key] by {
        let a = place_of(fewer, key);
        let a0 = if a < i { a } else { a + 1 };
        row_is_related(fewer, a);
        assert(fewer[a] == rows[a0]);
        row_is_related(rows, a0);
    }
    assert(relations_of(fewer) =~= wanted);
}

proof fn rows_are_counted(rows: Seq<Relationship>)
    requires
        one_row_per_pair(rows),
        rows_ordered(rows),
    ensures
        relations_of(rows).dom().finite(),
        relations_of(rows).dom().len() == rows.len(),
    decreases rows.len(),
{
    if rows.len() == 0 {
        assert(relations_of(rows).dom() =~= Set::<(i64, i64)>::empty());
    } else {
        let front = rows.drop_last();
        let last = rows.last();
        assert(one_row_per_pair(front) && rows_ordered(front)) by {
            assert forall|i: int, j: int| 0 <= i < j < front.len() implies (
            #[trigger] front[i]).key() != (#[trigger] front[j]).key() by {
                assert(front[i] == rows[i] && front[j] == rows[j]);
            }
            assert forall|i: int| 0 <= i < front.len() implies (#[trigger] front[i]).key().0
                < front[i].key().1 by {
                assert(front[i] == rows[i]);
            }
        }
        assert(!holds_key(front, last.key())) by {
            if holds_key(front, last.key()) {
                let i = place_of(front, last.key());
                assert(rows[i].key() != rows[rows.len() - 1].key());
            }
        }
        rows_are_counted(front);
        pushed_row_is_inserted(front, last);
        assert(rows =~= front.push(last));
    }
}

proof fn ordered_rows_have_canonical_keys(rows: Seq<Relationship>)
    requires
        rows_ordered(rows),
    ensures
        canonical_keys(relations_of(rows)),
{
    assert forall|key: (i64, i64)| relations_of(rows).dom().contains(key) implies key.0
        < key.1 by {
        let i = place_of(rows, key);
        assert(rows[i].key() == key);
    }
}

/// Whether `other` is linked to `account`: as a friend, or as the sender of
/// a request that awaits `account`.
spec fn linked(relations: Relations, account: i64, other: i64, as_friend: bool) -> bool {
    if as_friend {
        friends_in(relations, account, other)
    } else {
        awaits_in(relations, account, other)
    }
}

/// The account that a row links to `account`, if it does.
spec fn partner_in(row: Relationship, account: i64, as_friend: bool) -> Option<i64> {
    let wanted_low = if as_friend {
        RelationStatus::Friends
    } else {
        RelationStatus::PendingSecondFirst
    };
    let wanted_high = if as_friend {
        RelationStatus::Friends
    } else {
        RelationStatus::PendingFirstSecond
    };
    if row.key().0 == account && row.standing().status == wanted_low {
        Some(row.key().1)
    } else if row.key().1 == account && row.standing().status == wanted_high {
        Some(row.key().0)
    } else {
        None
    }
}

proof fn partners_are_linked(rows: Seq<Relationship>, account: i64, as_friend: bool, other: i64)
    requires
        one_row_per_pair(rows),
        rows_ordered(rows),
    ensures
        linked(relations_of(rows), account, other, as_friend) <==> exists|i: int|
            0 <= i < rows.len() && partner_in(#[trigger] rows[i], account, as_friend) == Some(
                other,
            ),
{
    let key = crate::pair::canonical_pair(account, other);
    if linked(relations_of(rows), account, other, as_friend) {
        assert(holds_key(rows, key));
        let i = place_of(rows, key);
        row_is_related(rows, i);
        assert(partner_in(rows[i], account, as_friend) == Some(other));
    }
    if exists|i: int|
        0 <= i < rows.len() && partner_in(#[trigger] rows[i], account, as_friend) == Some(other) {
        let i = choose|i: int|
            0 <= i < rows.len() && partner_in(#[trigger] rows[i], account, as_friend) == Some(
                other,
            );
        row_is_related(rows, i);
        assert(rows[i].key().0 < rows[i].key().1);
        assert(rows[i].key() == key);
    }
}

/// Puts `id` in its place in an ascending list.
fn insert_ascending(ids: &mut Vec<i64>, id: i64)
    requires
        ascending(old(ids)@),
        !old(ids)@.contains(id),
    ensures
        ascending(final(ids)@),
        forall|x: i64| final(ids)@.contains(x) <==> old(ids)@.contains(x) || x == id,
{
    let mut at: usize = 0;
    while at < ids.len() && ids[at] < id
        invariant
            at <= ids@.len(),
            ids@ == old(ids)@,
            forall|k: int| 0 <= k < at ==> ids@[k] < id,
        decreases ids@.len() - at,
    {
        at += 1;
    }
    let ghost before = ids@;
    ids.insert(at, id);
    proof {
        let after = ids@;
        assert(at < before.len() ==> before[at as int] > id) by {
            if at < before.len() {
                assert(before.contains(before[at as int]));
            }
        }
        assert forall|i: int, j: int| 0 <= i < j < after.len() implies after[i] < after[j] by {
            let i0 = if i < at { i } else { i - 1 };
            let j0 = if j < at { j } else { j - 1 };
            if i != at && j != at {
                assert(after[i] == before[i0] && after[j] == before[j0]);
            } else if i == at {
                assert(after[j] == before[j0]);
                if j0 > at {
                    assert(before[at as int] < before[j0]);
                }
            } else {
                assert(after[i] == before[i0]);
            }
        }
        assert forall|x: i64| after.contains(x) <==> before.contains(x) || x == id by {
            if after.contains(x) {
                let k = choose|k: int| 0 <= k < after.len() && after[k] == x;
                if k < at {
                    assert(before[k] == x);
                } else if k > at {
                    assert(before[k - 1] == x);
                }
            }
            if before.contains(x) {
                let k = choose|k: int| 0 <= k < before.len() && before[k] == x;
                let k1 = if k < at { k } else { k + 1 };
                assert(after[k1] == x);
            }
            if x == id {
                assert(after[at as int] == x);
            }
        }
    }
}

/// The relationships of all accounts, one record per pair.
pub struct RelationshipStore {
    rows: Vec<Relationship>,
}

impl View for RelationshipStore {
    type V = Relations;

    closed spec fn view(&self) -> Relations {
        relations_of(self.rows@)
    }
}

impl RelationshipStore {
    #[verifier::type_invariant]
    spec fn well_formed(self) -> bool {
        one_row_per_pair(self.rows@) && rows_ordered(self.rows@)
    }

    /// A store in which every pair is absent.
    pub fn new() -> (store: Self)
        ensures
            store@ == Map::<(i64, i64), Standing>::empty(),
    {
        let store = RelationshipStore { rows: Vec::new() };
        assert(store@ =~= Map::<(i64, i64), Standing>::empty());
        store
    }

    /// The number of pairs that have a record. Each record is kept under a
    /// canonical pair, so no pair is counted twice.
    pub fn len(&self) -> (count: usize)
        ensures
            self@.dom().finite(),
            count == self@.dom().len(),
            canonical_keys(self@),
    {
        proof {
            use_type_invariant(self);
            rows_are_counted(self.rows@);
            ordered_rows_have_canonical_keys(self.rows@);
        }
        self.rows.len()
    }

    fn position(&self, low: i64, high: i64) -> (at: Option<usize>)
        ensures
            match at {
                Some(i) => i < self.rows@.len() && self.rows@[i as int].key() == (low, high),
                None => !holds_key(self.rows@, (low, high)),
            },
    {
        let mut i: usize = 0;
        while i < self.rows.len()
            invariant
                i <= self.rows@.len(),
                forall|j: int| 0 <= j < i ==> (#[trigger] self.rows@[j]).key() != (low, high),
            decreases self.rows@.len() - i,
        {
            let row = &self.rows[i];
            if row.low_id() == low && row.high_id() == high {
                return Some(i);
            }
            i += 1;
        }
        None
    }

    /// Runs one statement as a storage with one row per pair does.
    fn apply(&mut self, intent: WriteIntent, now: i64) -> (report: WriteReport)
        requires
            intent.key().0 < intent.key().1,
        ensures
            final(self)@ == intent.effect(old(self)@, now).relations,
            report == intent.effect(old(self)@, now).report,
            canonical_keys(final(self)@),
    {
        proof {
            use_type_invariant(&*self);
        }
        let found = match intent {
            WriteIntent::Insert { low, high, .. } => self.position(low, high),
            WriteIntent::UpdateIf { low, high, .. } => self.position(low, high),
            WriteIntent::DeleteIf { low, high, .. } => self.position(low, high),
        };
        proof {
            if let Some(i) = found {
                row_is_related(self.rows@, i as int);
            }
        }
        let mut rows: Vec<Relationship> = Vec::new();
        std::mem::swap(&mut rows, &mut self.rows);
        let ghost before = rows@;
        let report = match intent {
            WriteIntent::Insert { low, high, status } => {
                match found {
                    Some(_) => WriteReport::Duplicate,
                    None => {
                        let row = Relationship::stored(low, high, status, now);
                        proof {
                            pushed_row_is_inserted(before, row);
                        }
                        rows.push(row);
                        WriteReport::Changed(1)
                    },
                }
            },
            WriteIntent::UpdateIf { low, high, expected, status } => {
                match found {
                    Some(i) if rows[i].status() == expected => {
                        let row = Relationship::stored(low, high, status, now);
                        proof {
                            replaced_row_is_inserted(before, i as int, row);
                        }
                        rows.set(i, row);
                        WriteReport::Changed(1)
                    },
                    _ => WriteReport::Changed(0),
                }
            },
            WriteIntent::DeleteIf { low, high, expected } => {
                match found {
                    Some(i) if rows[i].status() == expected => {
                        proof {
                            dropped_row_is_removed(before, i as int);
                        }
                        rows.remove(i);
                        WriteReport::Changed(1)
                    },
                    _ => WriteReport::Changed(0),
                }
            },
        };
        proof {
            ordered_rows_have_canonical_keys(rows@);
        }
        self.rows = rows;
        report
    }

    /// `requester` asks `target` for friendship. A pair that already has a
    /// record, in any status and from either side, is left as it is.
    pub fn send_request(&mut self, requester: i64, target: i64, now: i64) -> (result: Result<
        (),
        RelationError,
    >)
        ensures
            (Outcome { relations: final(self)@, result }) == send_request_spec(
                old(self)@,
                requester,
                target,
                now,
            ),
            canonical_keys(final(self)@),
    {
        proof {
            planned_writes_realize_transitions(self@, requester, target, now);
            planned_writes_are_canonical(requester, target);
        }
        match plan_send_request(requester, target) {
            Err(refused) => {
                proof {
                    use_type_invariant(&*self);
                    ordered_rows_have_canonical_keys(self.rows@);
                }
                Err(refused)
            },
            Ok(intent) => {
                let report = self.apply(intent, now);
                conclude(&intent, report)
            },
        }
    }

    /// `accepter` accepts the request that `requester` sent it, and the two
    /// become friends.
    pub fn accept_request(&mut self, accepter: i64, requester: i64, now: i64) -> (result: Result<
        (),
        RelationError,
    >)
        ensures
            (Outcome { relations: final(self)@, result }) == accept_request_spec(
                old(self)@,
                accepter,
                requester,
                now,
            ),
            canonical_keys(final(self)@),
    {
        proof {
            planned_writes_realize_transitions(self@, accepter, requester, now);
            planned_writes_are_canonical(accepter, requester);
        }
        match plan_accept_request(accepter, requester) {
            Err(refused) => {
                proof {
                    use_type_invariant(&*self);
                    ordered_rows_have_canonical_keys(self.rows@);
                }
                Err(refused)
            },
            Ok(intent) => {
                let report = self.apply(intent, now);
                conclude(&intent, report)
            },
        }
    }

    /// `decliner` turns down the request that `requester` sent it, and the
    /// pair is absent again.
    pub fn deny_request(&mut self, decliner: i64, requester: i64) -> (result: Result<
        (),
        RelationError,
    >)
        ensures
            (Outcome { relations: final(self)@, result }) == deny_request_spec(
                old(self)@,
                decliner,
                requester,
            ),
            canonical_keys(final(self)@),
    {
        proof {
            planned_writes_realize_transitions(self@, decliner, requester, 0);
            planned_writes_are_canonical(decliner, requester);
        }
        match plan_deny_request(decliner, requester) {
            Err(refused) => {
                proof {
                    use_type_invariant(&*self);
                    ordered_rows_have_canonical_keys(self.rows@);
                }
                Err(refused)
            },
            Ok(intent) => {
                let report = self.apply(intent, 0);
                conclude(&intent, report)
            },
        }
    }

    /// Ends the friendship of `a` and `b`. A pending request is not touched.
    pub fn remove_friendship(&mut self, a: i64, b: i64) -> (result: Result<(), RelationError>)
        ensures
            (Outcome { relations: final(self)@, result }) == remove_friendship_spec(
                old(self)@,
                a,
                b,
            ),
            canonical_keys(final(self)@),
    {
        proof {
            planned_writes_realize_transitions(self@, a, b, 0);
            planned_writes_are_canonical(a, b);
        }
        match plan_remove_friendship(a, b) {
            Err(refused) => {
                proof {
                    use_type_invariant(&*self);
                    ordered_rows_have_canonical_keys(self.rows@);
                }
                Err(refused)
            },
            Ok(intent) => {
                let report = self.apply(intent, 0);
                conclude(&intent, report)
            },
        }
    }

    /// The accounts that rows link to `account`, in ascending order.
    fn partners(&self, account: i64, as_friend: bool) -> (ids: Vec<i64>)
        ensures
            ascending(ids@),
            forall|other: i64| ids@.contains(other) <==> linked(self@, account, other, as_friend),
    {
        proof {
            use_type_invariant(self);
        }
        let mut ids: Vec<i64> = Vec::new();
        let mut i: usize = 0;
        while i < self.rows.len()
            invariant
                i <= self.rows@.len(),
                one_row_per_pair(self.rows@),
                rows_ordered(self.rows@),
                ascending(ids@),
                forall|other: i64|
                    ids@.contains(other) <==> exists|j: int|
                        0 <= j < i && partner_in(#[trigger] self.rows@[j], account, as_friend)
                            == Some(other),
            decreases self.rows@.len() - i,
        {
            let row = &self.rows[i];
            let status = row.status();
            let found = if row.low_id() == account && (if as_friend {
                status == RelationStatus::Friends
            } else {
                status == RelationStatus::PendingSecondFirst
            }) {
                Some(row.high_id())
            } else if row.high_id() == account && (if as_friend {
                status == RelationStatus::Friends
            } else {
                status == RelationStatus::PendingFirstSecond
            }) {
                Some(row.low_id())
            } else {
                None
            };
            assert(found == partner_in(self.rows@[i as int], account, as_friend));
            let ghost before = ids@;
            match found {
                Some(other) => {
                    proof {
                        if before.contains(other) {
                            let j = choose|j: int|
                                0 <= j < i && partner_in(
                                    #[trigger] self.rows@[j],
                                    account,
                                    as_friend,
                                ) == Some(other);
                            assert(self.rows@[j].key() != self.rows@[i as int].key());
                        }
                    }
                    insert_ascending(&mut ids, other);
                },
                None => {},
            }
            proof {
                assert forall|other: i64|
                    ids@.contains(other) <==> exists|j: int|
                        0 <= j < i + 1 && partner_in(
                            #[trigger] self.rows@[j],
                            account,
                            as_friend,
                        ) == Some(other) by {
                    if ids@.contains(other) {
                        if before.contains(other) {
                            let j = choose|j: int|
                                0 <= j < i && partner_in(
                                    #[trigger] self.rows@[j],
                                    account,
                                    as_friend,
                                ) == Some(other);
                            assert(0 <= j < i + 1 && partner_in(
                                self.rows@[j],
                                account,
                                as_friend,
                            ) == Some(other));
                        } else {
                            assert(partner_in(self.rows@[i as int], account, as_friend) == Some(
                                other,
                            ));
                        }
                    }
                    if exists|j: int|
                        0 <= j < i + 1 && partner_in(
                            #[trigger] self.rows@[j],
                            account,
                            as_friend,
                        ) == Some(other) {
                        let j = choose|j: int|
                            0 <= j < i + 1 && partner_in(
                                #[trigger] self.rows@[j],
                                account,
                                as_friend,
                            ) == Some(other);
                        if j < i {
                            assert(before.contains(other));
                        }
                    }
                }
            }
            i += 1;
        }
        proof {
            assert forall|other: i64|
                ids@.contains(other) <==> linked(self@, account, other, as_friend) by {
                partners_are_linked(self.rows@, account, as_friend, other);
            }
        }
        ids
    }

    /// The friends of `account`, in ascending order.
    pub fn friends_of(&self, account: i64) -> (ids: Vec<i64>)
        ensures
            ascending(ids@),
            forall|other: i64| ids@.contains(other) <==> friends_in(self@, account, other),
    {
        self.partners(account, true)
    }

    /// The accounts whose requests await the answer of `account`, in
    /// ascending order.
    pub fn requests_for(&self, account: i64) -> (ids: Vec<i64>)
        ensures
            ascending(ids@),
            forall|other: i64| ids@.contains(other) <==> awaits_in(self@, account, other),
    {
        self.partners(account, false)
    }

    /// The record of the pair `a`, `b`, if it has one.
    pub fn relationship_of(&self, a: i64, b: i64) -> (found: Option<Relationship>)
        ensures
            match found {
                Some(r) => a != b && self@.dom().contains(r.key()) && r.key() == crate::pair::canonical_pair(a, b)
                    && r.standing() == self@[r.key()],
                None => status_in(self@, a, b) is None,
            },
    {
        if a == b {
            return None;
        }
        proof {
            use_type_invariant(self);
        }
        let (low, high) = get_relation_pk(a, b);
        match self.position(low, high) {
            Some(i) => {
                proof {
                    row_is_related(self.rows@, i as int);
                }
                Some(self.rows[i])
            },
            None => None,
        }
    }

    /// The status of the pair `a`, `b`; `None` when the pair is absent.
    pub fn status_of(&self, a: i64, b: i64) -> (status: Option<RelationStatus>)
        ensures
            status == status_in(self@, a, b),
    {
        match self.relationship_of(a, b) {
            Some(r) => Some(r.status()),
            None => None,
        }
    }

    /// Whether `a` and `b` are friends.
    pub fn are_friends(&self, a: i64, b: i64) -> (friends: bool)
        ensures
            friends == friends_in(self@, a, b),
    {
        match self.status_of(a, b) {
            Some(RelationStatus::Friends) => true,
            _ => false,
        }
    }
}

} // verus!
