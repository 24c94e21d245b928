//! What a listing request asks for and what a listing answers with: the
//! direction to page in, the cursor and the limit, and the page with the
//! marker that records its direction.

use vstd::prelude::*;
use crate::json::{json_string, needs_no_escape, quoted};
use crate::text::text_equal;

verus! {

/// The direction in which a listing is paged from its cursor.
#[derive(Clone, Copy, Debug, PartialEq, Eq, Structural)]
pub enum SearchMethod {
    /// Towards smaller identifiers.
    Before,
    /// Towards larger identifiers.
    After,
}

impl SearchMethod {
    /// The lower-case name by which a request path names the direction.
    pub open spec fn name(self) -> Seq<char> {
        match self {
            SearchMethod::Before => "before"@,
            SearchMethod::After => "after"@,
        }
    }

    /// The direction that `text` names, if any.
    pub open spec fn named_by(text: Seq<char>) -> Option<SearchMethod> {
        if text == SearchMethod::Before.name() {
            Some(SearchMethod::Before)
        } else if text == SearchMethod::After.name() {
            Some(SearchMethod::After)
        } else {
            None
        }
    }

    pub fn as_str(&self) -> (name: &'static str)
        ensures
            name@ == self.name(),
    {
        match self {
            SearchMethod::Before => "before",
            SearchMethod::After => "after",
        }
    }

    /// Reads the direction from a segment of a request path.
    pub fn from_name(text: &str) -> (method: Option<SearchMethod>)
        ensures
            method == SearchMethod::named_by(text@),
    {
        if text_equal(text, "before") {
            Some(SearchMethod::Before)
        } else if text_equal(text, "after") {
            Some(SearchMethod::After)
        } else {
            None
        }
    }
}

/// Each direction is read back from its own name.
pub proof fn method_name_round_trip(method: SearchMethod)
    ensures
        SearchMethod::named_by(method.name()) == Some(method),
{
    reveal_strlit("before");
    reveal_strlit("after");
    assert("before"@.len() != "after"@.len());
}

/// The largest number of items that one page holds.
pub const MAX_PAGE_SIZE: i64 = 30;

/// The requested limit, capped at the largest page size. A limit below one
/// is passed on as it is.
pub open spec fn clamp_limit_spec(limit: i64) -> i64 {
    if limit < MAX_PAGE_SIZE {
        limit
    } else {
        MAX_PAGE_SIZE
    }
}

pub fn clamp_limit(limit: i64) -> (capped: i64)
    ensures
        capped == clamp_limit_spec(limit),
        capped <= 30,
        capped <= limit,
{
    if limit < MAX_PAGE_SIZE {
        limit
    } else {
        MAX_PAGE_SIZE
    }
}

/// The limit of a request that names none.
pub fn default_limit() -> (limit: i64)
    ensures
        limit == 20,
{
    20
}

/// The cursor and limit of a listing request.
#[derive(Clone, Copy, Debug, PartialEq, Eq, Structural)]
pub struct SearchQuery {
    /// The identifier to page from; a negative one stands for "from the
    /// very end".
    pub id: i64,
    pub limit: i64,
}

impl SearchQuery {
    /// The bound and the row limit that a query for this request uses: a
    /// negative cursor becomes the largest identifier there is, and the limit
    /// is capped at the largest page size.
    pub open spec fn into_parts_spec(self) -> (i64, i64) {
        (
            if self.id < 0 {
                i64::MAX
            } else {
                self.id
            },
            clamp_limit_spec(self.limit),
        )
    }

    /// The request with cursor `id`; where it names no limit, the default
    /// one is taken.
    pub fn new(id: i64, limit: Option<i64>) -> (query: SearchQuery)
        ensures
            query.id == id,
            query.limit == match limit {
                Some(l) => l,
                None => 20,
            },
    {
        let limit = match limit {
            Some(l) => l,
            None => default_limit(),
        };
        SearchQuery { id, limit }
    }

    pub fn into_parts(self) -> (parts: (i64, i64))
        ensures
            parts == self.into_parts_spec(),
    {
        (
            if self.id < 0 {
                i64::MAX
            } else {
                self.id
            },
            clamp_limit(self.limit),
        )
    }
}

/// The marker of a page: the JSON string of the direction's name.
pub open spec fn marker_spec(method: SearchMethod) -> Seq<char> {
    quoted(method.name())
}

/// What a client needs to ask for the page that follows.
#[derive(Clone, Debug, PartialEq, Eq)]
pub struct Pagination {
    /// The marker of the direction in which the page was taken.
    pub next_url: String,
}

/// One page of a listing.
#[derive(Clone, Debug, PartialEq, Eq)]
pub struct Paginated<T> {
    pub values: Vec<T>,
    pub pagination: Pagination,
}

impl Pagination {
    /// The marker for pages taken in `method`'s direction.
    pub fn for_method(method: SearchMethod) -> (pagination: Pagination)
        ensures
            pagination.next_url@ == marker_spec(method),
    {
        let name = method.as_str();
        proof {
            reveal_strlit("before");
            reveal_strlit("after");
            assert(needs_no_escape(name@));
        }
        let json = json_string(name);
        Pagination { next_url: json.unwrap() }
    }
}

impl<T> Paginated<T> {
    /// Wraps the items of a page taken in `method`'s direction.
    pub fn paginate(values: Vec<T>, method: SearchMethod) -> (page: Paginated<T>)
        ensures
            page.values == values,
            page.pagination.next_url@ == marker_spec(method),
    {
        Paginated { values, pagination: Pagination::for_method(method) }
    }
}

} // verus!
