//! Keyset paging of listings that are ordered by identifier.
//!
//! A page is taken from a cursor in one direction: `Before` selects the
//! identifiers below the cursor, nearest first, so in descending order;
//! `After` selects those above it in ascending order. A negative cursor sets
//! no bound. At most thirty items make a page.
//!
//! The source is read in the order it is given. Where it ascends by
//! identifier, as every listing here does, the page is ordered and holds the
//! items nearest to the cursor.

use vstd::prelude::*;
use crate::access::{can_view_spec, AccessResolver};
use crate::relationships::Relations;
use crate::search::{
    clamp_limit, clamp_limit_spec, marker_spec, Paginated, SearchMethod, SearchQuery,
};
use crate::visibility::Visibility;

verus! {

/// Whether `id` lies on the side of `cursor` that `direction` pages towards.
pub open spec fn in_range(id: i64, cursor: i64, direction: SearchMethod) -> bool {
    cursor < 0 || match direction {
        SearchMethod::Before => id < cursor,
        SearchMethod::After => id > cursor,
    }
}

/// `in_range` as a predicate on identifiers.
pub open spec fn within(cursor: i64, direction: SearchMethod) -> spec_fn(i64) -> bool {
    |id: i64| in_range(id, cursor, direction)
}

/// The number of items that a page may hold for a requested `limit`: the
/// limit capped at thirty, and nothing for a limit below one.
pub open spec fn page_size(limit: i64) -> nat {
    if clamp_limit_spec(limit) <= 0 {
        0
    } else {
        clamp_limit_spec(limit) as nat
    }
}

/// The first `count` of `items`, or all of them where there are fewer.
pub open spec fn first_of(items: Seq<i64>, count: nat) -> Seq<i64> {
    if count < items.len() {
        items.take(count as int)
    } else {
        items
    }
}

/// The identifiers of `source` that lie in range, in the order of the page.
pub open spec fn hits(source: Seq<i64>, cursor: i64, direction: SearchMethod) -> Seq<i64> {
    match direction {
        SearchMethod::After => source.filter(within(cursor, direction)),
        SearchMethod::Before => source.filter(within(cursor, direction)).reverse(),
    }
}

/// The page of `source` taken from `cursor` in `direction`.
pub open spec fn page_spec(
    source: Seq<i64>,
    cursor: i64,
    direction: SearchMethod,
    limit: i64,
) -> Seq<i64> {
    first_of(hits(source, cursor, direction), page_size(limit))
}

/// Each identifier is smaller than those after it.
pub open spec fn ascending(ids: Seq<i64>) -> bool {
    forall|i: int, j: int| 0 <= i < j < ids.len() ==> ids[i] < ids[j]
}

/// Each identifier is larger than those after it.
pub open spec fn descending(ids: Seq<i64>) -> bool {
    forall|i: int, j: int| 0 <= i < j < ids.len() ==> ids[i] > ids[j]
}

/// The bound and the number of rows with which a storage that holds the
/// listing is asked for a page: rows strictly below the bound, descending,
/// for `Before`, and strictly above it, ascending, for `After`.
pub open spec fn storage_query_spec(query: SearchQuery, direction: SearchMethod) -> (i64, i64) {
    (
        match direction {
            SearchMethod::Before => query.into_parts_spec().0,
            SearchMethod::After => query.id,
        },
        page_size(query.limit) as i64,
    )
}

/// The bound and the number of rows to ask a storage for.
pub fn storage_query(query: SearchQuery, direction: SearchMethod) -> (asked: (i64, i64))
    ensures
        asked == storage_query_spec(query, direction),
        0 <= asked.1 <= 30,
{
    let (bound, capped) = query.into_parts();
    (
        match direction {
            SearchMethod::Before => bound,
            SearchMethod::After => query.id,
        },
        if capped <= 0 {
            0
        } else {
            capped
        },
    )
}

/// On identifiers that are not negative, the bound of a storage query
/// selects what lies in range of the cursor. Only the largest identifier of
/// all escapes a `Before` query from the very end.
pub proof fn storage_bound_selects_the_range(query: SearchQuery, direction: SearchMethod, id: i64)
    requires
        0 <= id < i64::MAX,
    ensures
        in_range(id, query.id, direction) == match direction {
            SearchMethod::Before => id < storage_query_spec(query, direction).0,
            SearchMethod::After => id > storage_query_spec(query, direction).0,
        },
        storage_query_spec(query, direction).1 == page_size(query.limit),
{
}

fn is_in_range(id: i64, cursor: i64, direction: SearchMethod) -> (inside: bool)
    ensures
        inside == in_range(id, cursor, direction),
{
    cursor < 0 || match direction {
        SearchMethod::Before => id < cursor,
        SearchMethod::After => id > cursor,
    }
}

proof fn filter_of_extended_prefix<T>(source: Seq<T>, i: int, keep: spec_fn(T) -> bool)
    requires
        0 <= i < source.len(),
    ensures
        source.take(i + 1).filter(keep) == if keep(source[i]) {
            source.take(i).filter(keep).push(source[i])
        } else {
            source.take(i).filter(keep)
        },
{
    assert(source.take(i + 1) =~= source.take(i).push(source[i]));
    source.take(i).lemma_filter_push(source[i], keep);
}

proof fn filter_of_extended_suffix<T>(source: Seq<T>, i: int, keep: spec_fn(T) -> bool)
    requires
        0 <= i < source.len(),
    ensures
        source.skip(i).filter(keep).reverse() == if keep(source[i]) {
            source.skip(i + 1).filter(keep).reverse().push(source[i])
        } else {
            source.skip(i + 1).filter(keep).reverse()
        },
{
    let rest = source.skip(i + 1);
    assert(source.skip(i) =~= seq![source[i]] + rest);
    rest.lemma_filter_prepend(source[i], keep);
    if keep(source[i]) {
        assert((seq![source[i]] + rest.filter(keep)).reverse() =~= rest.filter(keep).reverse().push(
            source[i],
        ));
    } else {
        assert(Seq::<T>::empty() + rest.filter(keep) =~= rest.filter(keep));
    }
}

proof fn filter_splits<T>(source: Seq<T>, i: int, keep: spec_fn(T) -> bool)
    requires
        0 <= i <= source.len(),
    ensures
        source.filter(keep) == source.take(i).filter(keep) + source.skip(i).filter(keep),
{
    assert(source =~= source.take(i) + source.skip(i));
    Seq::filter_distributes_over_add(source.take(i), source.skip(i), keep);
}

/// Selects the page of `source`.
fn select(source: &Vec<i64>, cursor: i64, direction: SearchMethod, limit: i64) -> (picked: Vec<
    i64,
>)
    ensures
        picked@ == page_spec(source@, cursor, direction, limit),
{
    let capped = clamp_limit(limit);
    let size: usize = if capped <= 0 {
        0
    } else {
        capped as usize
    };
    assert(size == page_size(limit));
    let ghost keep = within(cursor, direction);
    let mut picked: Vec<i64> = Vec::new();
    match direction {
        SearchMethod::After => {
            let mut i: usize = 0;
            assert(source@.take(0).filter(keep) =~= Seq::<i64>::empty()) by {
                reveal(Seq::filter);
            }
            while i < source.len() && picked.len() < size
                invariant
                    i <= source@.len(),
                    picked@.len() <= size,
                    picked@ == source@.take(i as int).filter(keep),
                    keep == within(cursor, direction),
                decreases source@.len() - i,
            {
                let id = source[i];
                proof {
                    filter_of_extended_prefix(source@, i as int, keep);
                }
                if is_in_range(id, cursor, direction) {
                    picked.push(id);
                }
                i += 1;
            }
            proof {
                filter_splits(source@, i as int, keep);
                let all = source@.filter(keep);
                if i == source@.len() {
                    assert(source@.skip(i as int).filter(keep) =~= Seq::<i64>::empty()) by {
                        reveal(Seq::filter);
                    }
                    assert(all =~= picked@);
                } else {
                    assert(all.take(size as int) =~= picked@);
                }
            }
        },
        SearchMethod::Before => {
            let mut i: usize = source.len();
            assert(source@.skip(i as int).filter(keep).reverse() =~= Seq::<i64>::empty()) by {
                reveal(Seq::filter);
            }
            while i > 0 && picked.len() < size
                invariant
                    i <= source@.len(),
                    picked@.len() <= size,
                    picked@ == source@.skip(i as int).filter(keep).reverse(),
                    keep == within(cursor, direction),
                decreases i,
            {
                i -= 1;
                let id = source[i];
                proof {
                    filter_of_extended_suffix(source@, i as int, keep);
                }
                if is_in_range(id, cursor, direction) {
                    picked.push(id);
                }
            }
            proof {
                filter_splits(source@, i as int, keep);
                let head = source@.take(i as int).filter(keep);
                let tail = source@.skip(i as int).filter(keep);
                let all = source@.filter(keep).reverse();
                assert(all =~= tail.reverse() + head.reverse());
                if i == 0 {
                    assert(head =~= Seq::<i64>::empty()) by {
                        reveal(Seq::filter);
                    }
                    assert(all =~= picked@);
                } else {
                    assert(all.take(size as int) =~= picked@);
                }
            }
        },
    }
    picked
}

/// The page of the identifiers in `source` from `cursor_id` in `direction`,
/// with the marker of that direction.
pub fn page(source: &Vec<i64>, cursor_id: i64, direction: SearchMethod, limit: i64) -> (result:
    Paginated<i64>)
    ensures
        result.values@ == page_spec(source@, cursor_id, direction, limit),
        result.pagination.next_url@ == marker_spec(direction),
{
    Paginated::paginate(select(source, cursor_id, direction, limit), direction)
}

/// A row of a listing as far as paging and visibility read it: its
/// identifier, the account that owns it and the policy it stands under. For
/// an entry that is the policy of its journal.
#[derive(Clone, Copy, Debug, PartialEq, Eq)]
pub struct Candidate {
    pub id: i64,
    pub owner: i64,
    pub policy: Visibility,
}

/// The predicate "`viewer` may read this row".
pub open spec fn seen_by(relations: Relations, viewer: i64) -> spec_fn(Candidate) -> bool {
    |row: Candidate| can_view_spec(relations, viewer, row.owner, row.policy)
}

/// The identifiers of the rows that `viewer` may read, in the order of the
/// rows.
pub open spec fn visible_ids(relations: Relations, viewer: i64, rows: Seq<Candidate>) -> Seq<i64> {
    rows.filter(seen_by(relations, viewer)).map_values(|row: Candidate| row.id)
}

/// The identifiers of the rows that `viewer` may read.
pub fn filter_visible(resolver: &AccessResolver, viewer: i64, rows: &Vec<Candidate>) -> (ids: Vec<
    i64,
>)
    ensures
        ids@ == visible_ids(resolver.relations(), viewer, rows@),
{
    let ghost seen = seen_by(resolver.relations(), viewer);
    let mut ids: Vec<i64> = Vec::new();
    let mut i: usize = 0;
    assert(rows@.take(0).filter(seen) =~= Seq::<Candidate>::empty()) by {
        reveal(Seq::filter);
    }
    while i < rows.len()
        invariant
            i <= rows@.len(),
            seen == seen_by(resolver.relations(), viewer),
            ids@ == rows@.take(i as int).filter(seen).map_values(|row: Candidate| row.id),
        decreases rows@.len() - i,
    {
        let row = rows[i];
        proof {
            assert(rows@.take(i + 1) =~= rows@.take(i as int).push(rows@[i as int]));
            rows@.take(i as int).lemma_filter_push(rows@[i as int], seen);
            let kept = rows@.take(i as int).filter(seen);
            assert(kept.push(row).map_values(|row: Candidate| row.id) =~= kept.map_values(
                |row: Candidate| row.id,
            ).push(row.id));
        }
        if resolver.can_view(viewer, row.owner, row.policy) {
            ids.push(row.id);
        }
        i += 1;
    }
    assert(rows@.take(i as int) =~= rows@);
    ids
}

/// The page of the rows that `viewer` may read, with the marker of its
/// direction. Rows are judged before the limit is applied, so a page falls
/// short of the limit only when too few visible rows lie in range.
pub fn page_visible(
    resolver: &AccessResolver,
    viewer: i64,
    rows: &Vec<Candidate>,
    cursor_id: i64,
    direction: SearchMethod,
    limit: i64,
) -> (result: Paginated<i64>)
    ensures
        result.values@ == page_spec(
            visible_ids(resolver.relations(), viewer, rows@),
            cursor_id,
            direction,
            limit,
        ),
        result.pagination.next_url@ == marker_spec(direction),
{
    Paginated::paginate(
        select_visible(resolver, viewer, rows, cursor_id, direction, limit),
        direction,
    )
}

/// Selects the page of the rows that `viewer` may read. Rows are taken from
/// the cursor on and judged one by one until the page is full or the rows
/// are used up; a row out of range is not judged at all.
fn select_visible(
    resolver: &AccessResolver,
    viewer: i64,
    rows: &Vec<Candidate>,
    cursor: i64,
    direction: SearchMethod,
    limit: i64,
) -> (picked: Vec<i64>)
    ensures
        picked@ == page_spec(
            visible_ids(resolver.relations(), viewer, rows@),
            cursor,
            direction,
            limit,
        ),
{
    let capped = clamp_limit(limit);
    let size: usize = if capped <= 0 {
        0
    } else {
        capped as usize
    };
    let ghost both = seen_in_range(resolver.relations(), viewer, cursor, direction);
    proof {
        visible_hits_are_rows_seen_in_range(
            resolver.relations(),
            viewer,
            rows@,
            cursor,
            direction,
        );
    }
    let mut picked: Vec<i64> = Vec::new();
    match direction {
        SearchMethod::After => {
            let mut i: usize = 0;
            assert(rows@.take(0).filter(both).map_values(|row: Candidate| row.id) =~= Seq::<
                i64,
            >::empty()) by {
                reveal(Seq::filter);
            }
            while i < rows.len() && picked.len() < size
                invariant
                    i <= rows@.len(),
                    picked@.len() <= size,
                    picked@ == rows@.take(i as int).filter(both).map_values(
                        |row: Candidate| row.id,
                    ),
                    both == seen_in_range(resolver.relations(), viewer, cursor, direction),
                decreases rows@.len() - i,
            {
                let row = rows[i];
                proof {
                    filter_of_extended_prefix(rows@, i as int, both);
                    let kept = rows@.take(i as int).filter(both);
                    assert(kept.push(row).map_values(|row: Candidate| row.id)
                        =~= kept.map_values(|row: Candidate| row.id).push(row.id));
                }
                if is_in_range(row.id, cursor, direction) && resolver.can_view(
                    viewer,
                    row.owner,
                    row.policy,
                ) {
                    picked.push(row.id);
                }
                i += 1;
            }
            proof {
                filter_splits(rows@, i as int, both);
                let head = rows@.take(i as int).filter(both);
                let tail = rows@.skip(i as int).filter(both);
                let all = rows@.filter(both).map_values(|row: Candidate| row.id);
                assert(all =~= head.map_values(|row: Candidate| row.id) + tail.map_values(
                    |row: Candidate| row.id,
                ));
                if i == rows@.len() {
                    assert(tail =~= Seq::<Candidate>::empty()) by {
                        reveal(Seq::filter);
                    }
                    assert(all =~= picked@);
                } else {
                    assert(all.take(size as int) =~= picked@);
                }
            }
        },
        SearchMethod::Before => {
            let mut i: usize = rows.len();
            assert(rows@.skip(i as int).filter(both).reverse().map_values(
                |row: Candidate| row.id,
            ) =~= Seq::<i64>::empty()) by {
                reveal(Seq::filter);
            }
            while i > 0 && picked.len() < size
                invariant
                    i <= rows@.len(),
                    picked@.len() <= size,
                    picked@ == rows@.skip(i as int).filter(both).reverse().map_values(
                        |row: Candidate| row.id,
                    ),
                    both == seen_in_range(resolver.relations(), viewer, cursor, direction),
                decreases i,
            {
                i -= 1;
                let row = rows[i];
                proof {
                    filter_of_extended_suffix(rows@, i as int, both);
                    let kept = rows@.skip(i + 1).filter(both).reverse();
                    assert(kept.push(row).map_values(|row: Candidate| row.id)
                        =~= kept.map_values(|row: Candidate| row.id).push(row.id));
                }
                if is_in_range(row.id, cursor, direction) && resolver.can_view(
                    viewer,
                    row.owner,
                    row.policy,
                ) {
                    picked.push(row.id);
                }
            }
            proof {
                filter_splits(rows@, i as int, both);
                let head = rows@.take(i as int).filter(both);
                let tail = rows@.skip(i as int).filter(both);
                let all = rows@.filter(both).map_values(|row: Candidate| row.id).reverse();
                assert(all =~= tail.reverse().map_values(|row: Candidate| row.id)
                    + head.reverse().map_values(|row: Candidate| row.id));
                if i == 0 {
                    assert(head =~= Seq::<Candidate>::empty()) by {
                        reveal(Seq::filter);
                    }
                    assert(all =~= picked@);
                } else {
                    assert(all.take(size as int) =~= picked@);
                }
            }
        },
    }
    picked
}

proof fn filter_keeps_order(source: Seq<i64>, keep: spec_fn(i64) -> bool)
    requires
        ascending(source),
    ensures
        ascending(source.filter(keep)),
        forall|k: int|
            0 <= k < source.filter(keep).len() ==> source.contains(
                #[trigger] source.filter(keep)[k],
            ) && keep(source.filter(keep)[k]),
    decreases source.len(),
{
    reveal(Seq::filter);
    if source.len() > 0 {
        let front = source.drop_last();
        assert(ascending(front)) by {
            assert forall|i: int, j: int| 0 <= i < j < front.len() implies front[i] < front[j] by {
                assert(front[i] == source[i] && front[j] == source[j]);
            }
        }
        filter_keeps_order(front, keep);
        let kept = front.filter(keep);
        assert forall|k: int| 0 <= k < kept.len() implies source.contains(#[trigger] kept[k])
            && kept[k] < source.last() by {
            assert(front.contains(kept[k]));
            let at = choose|at: int| 0 <= at < front.len() && front[at] == kept[k];
            assert(source[at] == kept[k]);
        }
        let all = source.filter(keep);
        assert forall|k: int| 0 <= k < all.len() implies source.contains(#[trigger] all[k])
            && keep(all[k]) by {
            if k < kept.len() {
                assert(all[k] == kept[k]);
            } else {
                assert(all[k] == source[source.len() - 1]);
            }
        }
        assert forall|i: int, j: int| 0 <= i < j < all.len() implies all[i] < all[j] by {
            assert(all[i] == kept[i]);
            if j < kept.len() {
                assert(all[j] == kept[j]);
            }
        }
    }
}

/// A page holds at most thirty items and no more than were asked for; it is
/// shorter only where fewer items lie in range. Each of its items comes from
/// the source and lies in range.
pub proof fn page_is_bounded(source: Seq<i64>, cursor: i64, direction: SearchMethod, limit: i64)
    ensures
        page_spec(source, cursor, direction, limit).len() <= 30,
        page_spec(source, cursor, direction, limit).len() <= page_size(limit),
        page_spec(source, cursor, direction, limit).len() == if page_size(limit) < source.filter(
            within(cursor, direction),
        ).len() {
            page_size(limit)
        } else {
            source.filter(within(cursor, direction)).len()
        },
        forall|k: int|
            0 <= k < page_spec(source, cursor, direction, limit).len() ==> source.contains(
                #[trigger] page_spec(source, cursor, direction, limit)[k],
            ) && in_range(page_spec(source, cursor, direction, limit)[k], cursor, direction),
{
    let keep = within(cursor, direction);
    let kept = source.filter(keep);
    let page = page_spec(source, cursor, direction, limit);
    let ordered = hits(source, cursor, direction);
    assert(ordered.len() == kept.len());
    assert forall|k: int| 0 <= k < page.len() implies source.contains(#[trigger] page[k])
        && in_range(page[k], cursor, direction) by {
        let at = if direction == SearchMethod::After {
            k
        } else {
            kept.len() - 1 - k
        };
        assert(page[k] == ordered[k]);
        assert(ordered[k] == kept[at]);
        source.lemma_filter_pred(keep, at);
        assert(kept.contains(kept[at]));
        source.lemma_filter_contains_rev(keep, kept[at]);
    }
}

/// Of a source that ascends by identifier, a page taken `After` the cursor
/// ascends and a page taken `Before` it descends.
pub proof fn page_is_ordered(source: Seq<i64>, cursor: i64, direction: SearchMethod, limit: i64)
    requires
        ascending(source),
    ensures
        direction == SearchMethod::After ==> ascending(
            page_spec(source, cursor, direction, limit),
        ),
        direction == SearchMethod::Before ==> descending(
            page_spec(source, cursor, direction, limit),
        ),
{
    filter_keeps_order(source, within(cursor, direction));
}

/// Of a source that ascends by identifier, a page holds the items nearest
/// to the cursor: whatever lies in range and is left out lies beyond every
/// item of the page.
pub proof fn page_holds_the_nearest(
    source: Seq<i64>,
    cursor: i64,
    direction: SearchMethod,
    limit: i64,
    left_out: i64,
)
    requires
        ascending(source),
        source.contains(left_out),
        in_range(left_out, cursor, direction),
        !page_spec(source, cursor, direction, limit).contains(left_out),
    ensures
        page_spec(source, cursor, direction, limit).len() == page_size(limit),
        forall|k: int|
            0 <= k < page_spec(source, cursor, direction, limit).len() ==> match direction {
                SearchMethod::After => (#[trigger] page_spec(source, cursor, direction, limit)[k])
                    < left_out,
                SearchMethod::Before => page_spec(source, cursor, direction, limit)[k] > left_out,
            },
{
    let keep = within(cursor, direction);
    let kept = source.filter(keep);
    let page = page_spec(source, cursor, direction, limit);
    let ordered = hits(source, cursor, direction);
    filter_keeps_order(source, keep);
    let at_source = choose|i: int| 0 <= i < source.len() && source[i] == left_out;
    source.lemma_filter_contains(keep, at_source);
    let at_kept = choose|i: int| 0 <= i < kept.len() && kept[i] == left_out;
    let at = if direction == SearchMethod::After {
        at_kept
    } else {
        kept.len() - 1 - at_kept
    };
    assert(ordered[at] == left_out);
    if at < page.len() {
        assert(page[at] == left_out);
    }
    assert forall|k: int| 0 <= k < page.len() implies match direction {
        SearchMethod::After => (#[trigger] page[k]) < left_out,
        SearchMethod::Before => page[k] > left_out,
    } by {
        assert(page[k] == ordered[k]);
        assert(k < at);
    }
}

/// The predicate "`viewer` may read this row and it lies in range".
pub open spec fn seen_in_range(
    relations: Relations,
    viewer: i64,
    cursor: i64,
    direction: SearchMethod,
) -> spec_fn(Candidate) -> bool {
    |row: Candidate|
        can_view_spec(relations, viewer, row.owner, row.policy) && in_range(
            row.id,
            cursor,
            direction,
        )
}

proof fn visible_hits_are_rows_seen_in_range(
    relations: Relations,
    viewer: i64,
    rows: Seq<Candidate>,
    cursor: i64,
    direction: SearchMethod,
)
    ensures
        visible_ids(relations, viewer, rows).filter(within(cursor, direction)) == rows.filter(
            seen_in_range(relations, viewer, cursor, direction),
        ).map_values(|row: Candidate| row.id),
    decreases rows.len(),
{
    let seen = seen_by(relations, viewer);
    let both = seen_in_range(relations, viewer, cursor, direction);
    let keep = within(cursor, direction);
    let id_of = |row: Candidate| row.id;
    reveal(Seq::filter);
    if rows.len() == 0 {
        assert(rows.filter(seen).map_values(id_of) =~= Seq::<i64>::empty());
        assert(rows.filter(both).map_values(id_of) =~= Seq::<i64>::empty());
    } else {
        let front = rows.drop_last();
        let last = rows.last();
        visible_hits_are_rows_seen_in_range(relations, viewer, front, cursor, direction);
        let front_ids = front.filter(seen).map_values(id_of);
        if seen(last) {
            assert(rows.filter(seen).map_values(id_of) =~= front_ids.push(last.id));
            front_ids.lemma_filter_push(last.id, keep);
        }
        if both(last) {
            assert(rows.filter(both).map_values(id_of) =~= front.filter(both).map_values(
                id_of,
            ).push(last.id));
        }
    }
}

/// A page of visible rows falls short of what was asked for only where too
/// few rows are both visible and in range: rows that the viewer may not read
/// never take a place in the page.
pub proof fn hidden_rows_take_no_place(
    relations: Relations,
    viewer: i64,
    rows: Seq<Candidate>,
    cursor: i64,
    direction: SearchMethod,
    limit: i64,
)
    ensures
        page_spec(visible_ids(relations, viewer, rows), cursor, direction, limit).len()
            == if page_size(limit) < rows.filter(
            seen_in_range(relations, viewer, cursor, direction),
        ).len() {
            page_size(limit)
        } else {
            rows.filter(seen_in_range(relations, viewer, cursor, direction)).len()
        },
{
    visible_hits_are_rows_seen_in_range(relations, viewer, rows, cursor, direction);
    page_is_bounded(visible_ids(relations, viewer, rows), cursor, direction, limit);
}

/// An ascending list is determined by its members: two that hold the same
/// identifiers are the same list.
pub proof fn ascending_with_same_members(a: Seq<i64>, b: Seq<i64>)
    requires
        ascending(a),
        ascending(b),
        forall|x: i64| a.contains(x) <==> b.contains(x),
    ensures
        a == b,
    decreases a.len(),
{
    if a.len() == 0 {
        if b.len() > 0 {
            assert(b.contains(b[0]));
        }
        assert(a =~= b);
    } else {
        assert(a.contains(a.last()));
        let at_b = choose|i: int| 0 <= i < b.len() && b[i] == a.last();
        assert(b.contains(b.last()));
        let at_a = choose|i: int| 0 <= i < a.len() && a[i] == b.last();
        assert(a.last() == b.last()) by {
            if at_b < b.len() - 1 {
                assert(b[at_b] < b[b.len() - 1]);
            }
            if at_a < a.len() - 1 {
                assert(a[at_a] < a[a.len() - 1]);
            }
        }
        let a0 = a.drop_last();
        let b0 = b.drop_last();
        assert forall|x: i64| a0.contains(x) <==> b0.contains(x) by {
            if a0.contains(x) {
                let i = choose|i: int| 0 <= i < a0.len() && a0[i] == x;
                assert(a[i] == x && a[i] < a[a.len() - 1]);
                assert(a.contains(x));
                let j = choose|j: int| 0 <= j < b.len() && b[j] == x;
                assert(j < b.len() - 1);
                assert(b0[j] == x);
            }
            if b0.contains(x) {
                let i = choose|i: int| 0 <= i < b0.len() && b0[i] == x;
                assert(b[i] == x && b[i] < b[b.len() - 1]);
                assert(b.contains(x));
                let j = choose|j: int| 0 <= j < a.len() && a[j] == x;
                assert(j < a.len() - 1);
                assert(a0[j] == x);
            }
        }
        assert(ascending(a0)) by {
            assert forall|i: int, j: int| 0 <= i < j < a0.len() implies a0[i] < a0[j] by {
                assert(a0[i] == a[i] && a0[j] == a[j]);
            }
        }
        assert(ascending(b0)) by {
            assert forall|i: int, j: int| 0 <= i < j < b0.len() implies b0[i] < b0[j] by {
                assert(b0[i] == b[i] && b0[j] == b[j]);
            }
        }
        ascending_with_same_members(a0, b0);
        assert(a =~= a0.push(a.last()));
        assert(b =~= b0.push(b.last()));
    }
}

proof fn filter_members(source: Seq<i64>, keep: spec_fn(i64) -> bool)
    ensures
        forall|x: i64| #[trigger]
            source.filter(keep).contains(x) <==> source.contains(x) && keep(x),
{
    assert forall|x: i64| #[trigger]
        source.filter(keep).contains(x) <==> source.contains(x) && keep(x) by {
        if source.filter(keep).contains(x) {
            source.lemma_filter_contains_rev(keep, x);
        }
        if source.contains(x) && keep(x) {
            let i = choose|i: int| 0 <= i < source.len() && source[i] == x;
            source.lemma_filter_contains(keep, i);
        }
    }
}

/// The page asked for from the last item of a page, in the same direction,
/// takes up the listing exactly where that page ended: no item is skipped
/// and none comes twice. This holds of a source that ascends by identifier
/// when the last item is not negative, as no identifier is.
pub proof fn next_page_follows(source: Seq<i64>, cursor: i64, direction: SearchMethod, limit: i64)
    requires
        ascending(source),
        page_spec(source, cursor, direction, limit).len() > 0,
        page_spec(source, cursor, direction, limit).last() >= 0,
    ensures
        page_spec(source, page_spec(source, cursor, direction, limit).last(), direction, limit)
            == first_of(
            hits(source, cursor, direction).skip(
                page_spec(source, cursor, direction, limit).len() as int,
            ),
            page_size(limit),
        ),
{
    let page = page_spec(source, cursor, direction, limit);
    let n = page.len() as int;
    let last = page.last();
    let keep = within(cursor, direction);
    let keep_next = within(last, direction);
    let kept = source.filter(keep);
    let kept_next = source.filter(keep_next);
    let ordered = hits(source, cursor, direction);
    filter_keeps_order(source, keep);
    filter_keeps_order(source, keep_next);
    filter_members(source, keep);
    filter_members(source, keep_next);
    assert(page[n - 1] == ordered[n - 1]);
    match direction {
        SearchMethod::After => {
            let rest = kept.skip(n);
            assert(last == kept[n - 1]);
            assert(kept.contains(last));
            assert(keep(last));
            assert(ascending(rest)) by {
                assert forall|i: int, j: int| 0 <= i < j < rest.len() implies rest[i]
                    < rest[j] by {
                    assert(rest[i] == kept[i + n] && rest[j] == kept[j + n]);
                }
            }
            assert forall|x: i64| kept_next.contains(x) <==> rest.contains(x) by {
                if kept_next.contains(x) {
                    assert(source.contains(x) && keep_next(x));
                    assert(x > last);
                    assert(keep(x));
                    assert(kept.contains(x));
                    let i = choose|i: int| 0 <= i < kept.len() && kept[i] == x;
                    if i < n - 1 {
                        assert(kept[i] < kept[n - 1]);
                    }
                    assert(i >= n);
                    assert(rest[i - n] == x);
                }
                if rest.contains(x) {
                    let i = choose|i: int| 0 <= i < rest.len() && rest[i] == x;
                    assert(kept[i + n] == x);
                    assert(kept[n - 1] < kept[i + n]);
                    assert(kept.contains(x));
                    assert(source.contains(x) && keep_next(x));
                }
            }
            ascending_with_same_members(kept_next, rest);
        },
        SearchMethod::Before => {
            let m = kept.len() - n;
            let rest = kept.take(m);
            assert(last == kept[m]);
            assert(kept.contains(last));
            assert(keep(last));
            assert(ascending(rest)) by {
                assert forall|i: int, j: int| 0 <= i < j < rest.len() implies rest[i]
                    < rest[j] by {
                    assert(rest[i] == kept[i] && rest[j] == kept[j]);
                }
            }
            assert forall|x: i64| kept_next.contains(x) <==> rest.contains(x) by {
                if kept_next.contains(x) {
                    assert(source.contains(x) && keep_next(x));
                    assert(x < last);
                    assert(keep(x));
                    assert(kept.contains(x));
                    let i = choose|i: int| 0 <= i < kept.len() && kept[i] == x;
                    if i > m {
                        assert(kept[m] < kept[i]);
                    }
                    assert(i < m);
                    assert(rest[i] == x);
                }
                if rest.contains(x) {
                    let i = choose|i: int| 0 <= i < rest.len() && rest[i] == x;
                    assert(kept[i] == x);
                    assert(kept[i] < kept[m]);
                    assert(kept.contains(x));
                    assert(source.contains(x) && keep_next(x));
                }
            }
            ascending_with_same_members(kept_next, rest);
            assert(kept_next.reverse() =~= kept.reverse().skip(n));
        },
    }
}

} // verus!
