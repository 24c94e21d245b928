use valyou::access::AccessResolver;
use valyou::pager::{filter_visible, page, page_visible, storage_query, Candidate};
use valyou::search::{
    clamp_limit, default_limit, Paginated, Pagination, SearchMethod, SearchQuery, MAX_PAGE_SIZE,
};
use valyou::store::RelationshipStore;
use valyou::visibility::Visibility;

#[test]
fn page_before_cursor_descends() {
    let ids = vec![10, 20, 30, 40, 50];
    let result = page(&ids, 30, SearchMethod::Before, 2);
    assert_eq!(result.values, vec![20, 10]);
    assert_eq!(result.pagination.next_url, "\"before\"");
}

#[test]
fn page_after_cursor_ascends() {
    let ids = vec![10, 20, 30, 40, 50];
    let result = page(&ids, 30, SearchMethod::After, 2);
    assert_eq!(result.values, vec![40, 50]);
    assert_eq!(result.pagination.next_url, "\"after\"");
}

#[test]
fn negative_cursor_sets_no_bound() {
    let ids = vec![10, 20, 30, 40, 50];
    assert_eq!(page(&ids, -1, SearchMethod::Before, 10).values, vec![50, 40, 30, 20, 10]);
    assert_eq!(page(&ids, -1, SearchMethod::Before, 2).values, vec![50, 40]);
    assert_eq!(page(&ids, -7, SearchMethod::After, 10).values, vec![10, 20, 30, 40, 50]);
    let with_largest = vec![1, i64::MAX];
    assert_eq!(page(&with_largest, -1, SearchMethod::Before, 5).values, vec![i64::MAX, 1]);
}

#[test]
fn limit_is_capped_at_thirty() {
    let ids: Vec<i64> = (1..=100).collect();
    let after = page(&ids, 0, SearchMethod::After, 50);
    assert_eq!(after.values.len(), 30);
    assert_eq!(after.values, (1..=30).collect::<Vec<i64>>());
    let before = page(&ids, -1, SearchMethod::Before, 50);
    assert_eq!(before.values.len(), 30);
    assert_eq!(before.values, (71..=100).rev().collect::<Vec<i64>>());
    assert_eq!(page(&ids, 0, SearchMethod::After, 30).values.len(), 30);
    assert_eq!(page(&ids, 0, SearchMethod::After, 31).values.len(), 30);
    assert_eq!(page(&ids, 0, SearchMethod::After, 29).values.len(), 29);
    assert_eq!(page(&ids, 0, SearchMethod::After, i64::MAX).values.len(), 30);
}

#[test]
fn limit_below_one_selects_nothing() {
    let ids = vec![10, 20, 30];
    assert_eq!(page(&ids, 0, SearchMethod::After, 0).values, Vec::<i64>::new());
    assert_eq!(page(&ids, 0, SearchMethod::After, -3).values, Vec::<i64>::new());
    assert_eq!(page(&ids, -1, SearchMethod::Before, i64::MIN).values, Vec::<i64>::new());
}

#[test]
fn cursor_itself_is_left_out() {
    let ids = vec![10, 20, 30];
    assert_eq!(page(&ids, 20, SearchMethod::After, 5).values, vec![30]);
    assert_eq!(page(&ids, 20, SearchMethod::Before, 5).values, vec![10]);
    assert_eq!(page(&ids, 30, SearchMethod::After, 5).values, Vec::<i64>::new());
    assert_eq!(page(&ids, 10, SearchMethod::Before, 5).values, Vec::<i64>::new());
    assert_eq!(page(&ids, 0, SearchMethod::Before, 5).values, Vec::<i64>::new());
    assert_eq!(page(&ids, 25, SearchMethod::Before, 5).values, vec![20, 10]);
}

#[test]
fn empty_source_gives_an_empty_page() {
    let ids: Vec<i64> = Vec::new();
    let result = page(&ids, -1, SearchMethod::Before, 20);
    assert!(result.values.is_empty());
    assert_eq!(result.pagination.next_url, "\"before\"");
}

#[test]
fn following_page_continues_from_the_last_item() {
    let ids: Vec<i64> = (1..=7).map(|i| i * 10).collect();
    let first = page(&ids, -1, SearchMethod::Before, 3).values;
    assert_eq!(first, vec![70, 60, 50]);
    let second = page(&ids, *first.last().unwrap(), SearchMethod::Before, 3).values;
    assert_eq!(second, vec![40, 30, 20]);
    let third = page(&ids, *second.last().unwrap(), SearchMethod::Before, 3).values;
    assert_eq!(third, vec![10]);
    let forward = page(&ids, 10, SearchMethod::After, 3).values;
    assert_eq!(forward, vec![20, 30, 40]);
}

#[test]
fn query_parts() {
    assert_eq!(SearchQuery { id: 5, limit: 10 }.into_parts(), (5, 10));
    assert_eq!(SearchQuery { id: 0, limit: 30 }.into_parts(), (0, 30));
    assert_eq!(SearchQuery { id: -1, limit: 50 }.into_parts(), (i64::MAX, 30));
    assert_eq!(SearchQuery { id: i64::MIN, limit: 31 }.into_parts(), (i64::MAX, 30));
    assert_eq!(SearchQuery { id: 7, limit: 0 }.into_parts(), (7, 0));
    assert_eq!(SearchQuery { id: 7, limit: -4 }.into_parts(), (7, -4));
}

#[test]
fn query_defaults() {
    assert_eq!(default_limit(), 20);
    assert_eq!(MAX_PAGE_SIZE, 30);
    assert_eq!(SearchQuery::new(3, None), SearchQuery { id: 3, limit: 20 });
    assert_eq!(SearchQuery::new(3, Some(45)), SearchQuery { id: 3, limit: 45 });
    assert_eq!(SearchQuery::new(-1, None).into_parts(), (i64::MAX, 20));
    assert_eq!(clamp_limit(29), 29);
    assert_eq!(clamp_limit(30), 30);
    assert_eq!(clamp_limit(31), 30);
    assert_eq!(clamp_limit(-1), -1);
}

#[test]
fn method_names() {
    assert_eq!(SearchMethod::Before.as_str(), "before");
    assert_eq!(SearchMethod::After.as_str(), "after");
    assert_eq!(SearchMethod::from_name("before"), Some(SearchMethod::Before));
    assert_eq!(SearchMethod::from_name("after"), Some(SearchMethod::After));
    assert_eq!(SearchMethod::from_name("Before"), None);
    assert_eq!(SearchMethod::from_name(""), None);
    assert_eq!(SearchMethod::from_name("afterwards"), None);
}

#[test]
fn paginate_records_the_direction() {
    let before = Paginated::paginate(vec!["a".to_string(), "b".to_string()], SearchMethod::Before);
    assert_eq!(before.values, vec!["a".to_string(), "b".to_string()]);
    assert_eq!(before.pagination, Pagination { next_url: "\"before\"".to_string() });
    let after: Paginated<i64> = Paginated::paginate(Vec::new(), SearchMethod::After);
    assert!(after.values.is_empty());
    assert_eq!(after.pagination.next_url, "\"after\"");
    assert_eq!(Pagination::for_method(SearchMethod::After).next_url, "\"after\"");
}

fn journals_of_1() -> Vec<Candidate> {
    vec![
        Candidate { id: 10, owner: 1, policy: Visibility::Public },
        Candidate { id: 20, owner: 1, policy: Visibility::Private },
        Candidate { id: 30, owner: 1, policy: Visibility::Friends },
        Candidate { id: 40, owner: 1, policy: Visibility::Private },
        Candidate { id: 50, owner: 1, policy: Visibility::Public },
        Candidate { id: 60, owner: 1, policy: Visibility::Friends },
    ]
}

fn store_with_friends_1_2() -> RelationshipStore {
    let mut store = RelationshipStore::new();
    store.send_request(2, 1, 5).unwrap();
    store.accept_request(1, 2, 6).unwrap();
    store.send_request(3, 1, 7).unwrap();
    store
}

#[test]
fn visible_rows_by_viewer() {
    let store = store_with_friends_1_2();
    let resolver = AccessResolver::new(&store);
    let rows = journals_of_1();
    assert_eq!(filter_visible(&resolver, 1, &rows), vec![10, 20, 30, 40, 50, 60]);
    assert_eq!(filter_visible(&resolver, 2, &rows), vec![10, 30, 50, 60]);
    assert_eq!(filter_visible(&resolver, 3, &rows), vec![10, 50]);
    assert_eq!(filter_visible(&resolver, 4, &Vec::new()), Vec::<i64>::new());
}

#[test]
fn hidden_rows_do_not_shorten_a_page() {
    let store = store_with_friends_1_2();
    let resolver = AccessResolver::new(&store);
    let rows = journals_of_1();
    let stranger = page_visible(&resolver, 3, &rows, 0, SearchMethod::After, 2);
    assert_eq!(stranger.values, vec![10, 50]);
    assert_eq!(stranger.pagination.next_url, "\"after\"");
    let friend = page_visible(&resolver, 2, &rows, -1, SearchMethod::Before, 3);
    assert_eq!(friend.values, vec![60, 50, 30]);
    let friend_next = page_visible(&resolver, 2, &rows, 30, SearchMethod::Before, 3);
    assert_eq!(friend_next.values, vec![10]);
    let owner = page_visible(&resolver, 1, &rows, 20, SearchMethod::After, 3);
    assert_eq!(owner.values, vec![30, 40, 50]);
}

#[test]
fn feed_mixes_owners() {
    let store = store_with_friends_1_2();
    let resolver = AccessResolver::new(&store);
    let rows = vec![
        Candidate { id: 1, owner: 1, policy: Visibility::Friends },
        Candidate { id: 2, owner: 2, policy: Visibility::Private },
        Candidate { id: 3, owner: 3, policy: Visibility::Friends },
        Candidate { id: 4, owner: 3, policy: Visibility::Public },
        Candidate { id: 5, owner: 1, policy: Visibility::Private },
    ];
    assert_eq!(page_visible(&resolver, 2, &rows, -1, SearchMethod::Before, 20).values, vec![4, 2, 1]);
    assert_eq!(page_visible(&resolver, 3, &rows, -1, SearchMethod::Before, 20).values, vec![4, 3]);
    assert_eq!(page_visible(&resolver, 1, &rows, 0, SearchMethod::After, 20).values, vec![1, 4, 5]);
}

#[test]
fn friend_lists_are_paged() {
    let mut store = RelationshipStore::new();
    for other in [40, 10, 30, 20, 50] {
        store.send_request(other, 1, 5).unwrap();
        store.accept_request(1, other, 6).unwrap();
    }
    let friends = store.friends_of(1);
    assert_eq!(page(&friends, 30, SearchMethod::Before, 2).values, vec![20, 10]);
    assert_eq!(page(&friends, 30, SearchMethod::After, 2).values, vec![40, 50]);
    assert_eq!(page(&friends, -1, SearchMethod::Before, 10).values, vec![50, 40, 30, 20, 10]);
}

#[test]
fn storage_queries_by_direction() {
    assert_eq!(storage_query(SearchQuery { id: 30, limit: 2 }, SearchMethod::Before), (30, 2));
    assert_eq!(storage_query(SearchQuery { id: 30, limit: 2 }, SearchMethod::After), (30, 2));
    assert_eq!(
        storage_query(SearchQuery { id: -1, limit: 50 }, SearchMethod::Before),
        (i64::MAX, 30)
    );
    assert_eq!(storage_query(SearchQuery { id: -1, limit: 50 }, SearchMethod::After), (-1, 30));
    assert_eq!(storage_query(SearchQuery { id: 5, limit: 0 }, SearchMethod::After), (5, 0));
    assert_eq!(storage_query(SearchQuery { id: 5, limit: -9 }, SearchMethod::Before), (5, 0));
    assert_eq!(storage_query(SearchQuery::new(7, None), SearchMethod::After), (7, 20));
}
