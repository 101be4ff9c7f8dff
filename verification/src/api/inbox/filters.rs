//! Validation of a filtered-count request.

use vstd::prelude::*;
use crate::error::{ApiError, ErrorCode};
use crate::text::same;

verus! {

/// The most filters, and the most category entries over all filters, that one
/// request may hold.
pub const MAX_FILTER_TERMS: usize = 100;

/// The longest category, in characters.
pub const MAX_CATEGORY_LENGTH: usize = 255;

/// Exact category names combined with OR semantics.
#[derive(Debug)]
pub struct InboxCountFilter {
    pub categories: Vec<String>,
}

impl InboxCountFilter {
    /// The category names.
    pub open spec fn names(self) -> Seq<Seq<char>> {
        self.categories@.map_values(|c: String| c@)
    }
}

/// Ordered category filters.
#[derive(Debug)]
pub struct FilteredInboxCountsRequest {
    pub filters: Vec<InboxCountFilter>,
}

/// The category names to count, each with the index of its filter.
#[derive(Debug)]
pub struct NormalizedCountFilters {
    pub category_filter_indexes: Vec<i32>,
    pub categories: Vec<String>,
}

/// A category name is neither empty nor over-long.
pub open spec fn is_category(name: Seq<char>) -> bool {
    1 <= name.len() <= MAX_CATEGORY_LENGTH
}

/// Accepts a category name that is neither empty nor over-long.
pub fn validate_category(category: &str) -> (r: Result<(), ApiError>)
    ensures
        match r {
            Ok(()) => is_category(category@),
            Err(e) => !is_category(category@) && e.is(
                ErrorCode::InvalidRequest,
                "category must be 1–255 characters"@,
            ),
        },
        r is Ok <==> 1 <= category@.len() <= 255,
{
    let n: usize = category.unicode_len();
    if n == 0 || n > MAX_CATEGORY_LENGTH {
        Err(ApiError::bad_request("category must be 1–255 characters"))
    } else {
        Ok(())
    }
}

/// The names of `names`, each where it first stands.
pub open spec fn distinct(names: Seq<Seq<char>>) -> Seq<Seq<char>>
    decreases names.len(),
{
    if names.len() == 0 {
        Seq::empty()
    } else if names.drop_last().contains(names.last()) {
        distinct(names.drop_last())
    } else {
        distinct(names.drop_last()).push(names.last())
    }
}

/// How many category entries the first `n` filters hold.
pub open spec fn entries(filters: Seq<InboxCountFilter>, n: int) -> int
    decreases n,
{
    if n <= 0 {
        0
    } else {
        entries(filters, n - 1) + filters[n - 1].categories@.len()
    }
}

/// What is wrong with filter `i`, if anything.
pub open spec fn filter_fault(filters: Seq<InboxCountFilter>, i: int) -> Option<Seq<char>> {
    let names = filters[i].names();
    if names.len() == 0 {
        Some("each filter must contain at least one category"@)
    } else if entries(filters, i + 1) > MAX_FILTER_TERMS {
        Some("filters must contain at most 100 category entries"@)
    } else if exists|j: int| 0 <= j < names.len() && !is_category(#[trigger] names[j]) {
        Some("category must be 1–255 characters"@)
    } else {
        None
    }
}

/// What is wrong with the request, if anything: the number of filters, else
/// the first faulty filter.
pub open spec fn request_fault(filters: Seq<InboxCountFilter>) -> Option<Seq<char>> {
    if filters.len() == 0 || filters.len() > MAX_FILTER_TERMS {
        Some("filters must contain 1–100 entries"@)
    } else {
        first_fault(filters, filters.len() as int)
    }
}

/// The fault of the first faulty filter among the first `n`.
pub open spec fn first_fault(filters: Seq<InboxCountFilter>, n: int) -> Option<Seq<char>>
    decreases n,
{
    if n <= 0 {
        None
    } else {
        match first_fault(filters, n - 1) {
            Some(m) => Some(m),
            None => filter_fault(filters, n - 1),
        }
    }
}

/// The first `n` filters in order, each with its distinct names in order.
pub open spec fn filter_rows(filters: Seq<InboxCountFilter>, n: int) -> Seq<(int, Seq<char>)>
    decreases n,
{
    if n <= 0 {
        Seq::empty()
    } else {
        filter_rows(filters, n - 1) + distinct(filters[n - 1].names()).map_values(
            |name: Seq<char>| (n - 1, name),
        )
    }
}

impl NormalizedCountFilters {
    /// The rows: a filter's index with one of its names.
    pub open spec fn rows(self) -> Seq<(int, Seq<char>)> {
        row_view(self.category_filter_indexes@, self.categories@)
    }

    /// How many filters there are.
    pub open spec fn filter_count(self) -> int {
        if self.category_filter_indexes@.len() == 0 {
            0
        } else {
            self.category_filter_indexes@.last() + 1
        }
    }

    /// Rows of equal length that name every filter from 0 on, in order.
    pub open spec fn wf(self) -> bool {
        let idx = self.category_filter_indexes@;
        &&& idx.len() == self.categories@.len()
        &&& idx.len() > 0 ==> idx[0] == 0
        &&& forall|k: int|
            0 < k < idx.len() ==> (#[trigger] idx[k]) == idx[k - 1] || idx[k] == idx[k - 1] + 1
        &&& forall|k: int| 0 <= k < idx.len() ==> 0 <= #[trigger] idx[k] < self.filter_count()
        &&& self.filter_count() <= MAX_FILTER_TERMS
    }
}

/// Indexes and names, row by row.
pub open spec fn row_view(indexes: Seq<i32>, names: Seq<String>) -> Seq<(int, Seq<char>)> {
    Seq::new(names.len(), |k: int| (indexes[k] as int, names[k]@))
}

proof fn lemma_distinct_nonempty(names: Seq<Seq<char>>)
    requires
        names.len() > 0,
    ensures
        distinct(names).len() > 0,
    decreases names.len(),
{
    if names.len() > 1 {
        lemma_distinct_nonempty(names.drop_last());
    } else {
        assert(!names.drop_last().contains(names.last()));
    }
}

fn occurs(names: &Vec<String>, n: usize, name: &str) -> (r: bool)
    requires
        n <= names.len(),
    ensures
        r == names@.map_values(|c: String| c@).take(n as int).contains(name@),
{
    let ghost views = names@.map_values(|c: String| c@).take(n as int);
    let mut i: usize = 0;
    while i < n
        invariant
            i <= n <= names.len(),
            views == names@.map_values(|c: String| c@).take(n as int),
            forall|j: int| 0 <= j < i ==> views[j] != name@,
        decreases n - i,
    {
        if same(names[i].as_str(), name) {
            assert(views[i as int] == name@);
            return true;
        }
        i = i + 1;
    }
    false
}

proof fn lemma_fault_found(filters: Seq<InboxCountFilter>, i: int, n: int)
    requires
        0 <= i < n,
        first_fault(filters, i) is None,
        filter_fault(filters, i) is Some,
    ensures
        first_fault(filters, n) == filter_fault(filters, i),
    decreases n,
{
    if i < n - 1 {
        lemma_fault_found(filters, i, n - 1);
    }
}

/// Validates a filtered-count request and drops repeated categories: 1 to 100
/// filters, each with a category, at most 100 category entries in all.
pub fn normalize_count_filters(request: FilteredInboxCountsRequest) -> (r: Result<
    NormalizedCountFilters,
    ApiError,
>)
    ensures
        match r {
            Ok(n) => {
                &&& request_fault(request.filters@) is None
                &&& n.wf()
                &&& n.filter_count() == request.filters@.len()
                &&& n.rows() == filter_rows(request.filters@, request.filters@.len() as int)
            },
            Err(e) => request_fault(request.filters@) matches Some(m) && e.is(
                ErrorCode::InvalidRequest,
                m,
            ),
        },
{
    let filters: &Vec<InboxCountFilter> = &request.filters;
    let ghost fs = filters@;
    if filters.len() == 0 || filters.len() > MAX_FILTER_TERMS {
        return Err(ApiError::bad_request("filters must contain 1–100 entries"));
    }
    let mut indexes: Vec<i32> = Vec::new();
    let mut categories: Vec<String> = Vec::new();
    let mut term_count: usize = 0;
    let mut i: usize = 0;
    while i < filters.len()
        invariant
            i <= filters.len() <= MAX_FILTER_TERMS,
            fs == filters@,
            fs == request.filters@,
            fs.len() > 0,
            term_count == entries(fs, i as int) <= MAX_FILTER_TERMS,
            first_fault(fs, i as int) is None,
            indexes.len() == categories.len(),
            row_view(indexes@, categories@) == filter_rows(fs, i as int),
            i > 0 ==> indexes.len() > 0 && indexes@.last() == i - 1,
            indexes.len() > 0 ==> i > 0 && indexes@[0] == 0,
            forall|k: int| 0 <= k < indexes.len() ==> 0 <= #[trigger] indexes@[k] < i,
            forall|k: int|
                0 < k < indexes.len() ==> (#[trigger] indexes@[k]) == indexes@[k - 1] || indexes@[k]
                    == indexes@[k - 1] + 1,
        decreases filters.len() - i,
    {
        let filter: &InboxCountFilter = &filters[i];
        let ghost names = fs[i as int].names();
        if filter.categories.len() == 0 {
            proof {
                lemma_fault_found(fs, i as int, fs.len() as int);
            }
            return Err(ApiError::bad_request("each filter must contain at least one category"));
        }
        if filter.categories.len() > MAX_FILTER_TERMS - term_count {
            proof {
                lemma_fault_found(fs, i as int, fs.len() as int);
            }
            return Err(ApiError::bad_request("filters must contain at most 100 category entries"));
        }
        term_count = term_count + filter.categories.len();
        let ghost start = indexes@.len();
        let ghost before = row_view(indexes@, categories@);
        let mut j: usize = 0;
        proof {
            assert(names.take(0) =~= Seq::<Seq<char>>::empty());
            assert(before + distinct(names.take(0)).map_values(|name: Seq<char>| (i as int, name))
                =~= before);
        }
        while j < filter.categories.len()
            invariant
                j <= filter.categories.len(),
                i < filters.len() <= MAX_FILTER_TERMS,
                fs == filters@,
                fs == request.filters@,
                filter == fs[i as int],
                names == fs[i as int].names(),
                names.len() > 0,
                entries(fs, i + 1) <= MAX_FILTER_TERMS,
                first_fault(fs, i as int) is None,
                forall|k: int| 0 <= k < j ==> is_category(#[trigger] names[k]),
                before == filter_rows(fs, i as int),
                indexes.len() == categories.len(),
                row_view(indexes@, categories@) == before + distinct(
                    names.take(j as int),
                ).map_values(|name: Seq<char>| (i as int, name)),
                start == before.len(),
                start <= indexes.len(),
                start == 0 <==> i == 0,
                j > 0 ==> indexes.len() > start,
                indexes.len() > 0 ==> indexes@[0] == 0,
                indexes.len() > start ==> indexes@.last() == i,
                indexes.len() == start && i > 0 ==> indexes@.last() == i - 1,
                forall|k: int| 0 <= k < indexes.len() ==> 0 <= #[trigger] indexes@[k] <= i,
                forall|k: int|
                    0 < k < indexes.len() ==> (#[trigger] indexes@[k]) == indexes@[k - 1]
                        || indexes@[k] == indexes@[k - 1] + 1,
            decreases filter.categories.len() - j,
        {
            let category: &String = &filter.categories[j];
            proof {
                assert(names[j as int] == category@);
                assert(names.take(j + 1).drop_last() =~= names.take(j as int));
                assert(names.take(j + 1).last() == category@);
            }
            match validate_category(category.as_str()) {
                Ok(()) => {},
                Err(e) => {
                    proof {
                        assert(!is_category(names[j as int]));
                        lemma_fault_found(fs, i as int, fs.len() as int);
                    }
                    return Err(e);
                },
            }
            let ghost old_rows = row_view(indexes@, categories@);
            if !occurs(&filter.categories, j, category.as_str()) {
                indexes.push(i as i32);
                categories.push(category.clone());
                proof {
                    assert(row_view(indexes@, categories@) =~= old_rows.push(
                        (i as int, category@),
                    ));
                    assert(row_view(indexes@, categories@) =~= before + distinct(
                        names.take(j + 1),
                    ).map_values(|name: Seq<char>| (i as int, name)));
                }
            }
            proof {
                lemma_distinct_nonempty(names.take(j + 1));
                assert(indexes.len() == before.len() + distinct(names.take(j + 1)).len());
            }
            j = j + 1;
        }
        proof {
            assert(names.take(j as int) =~= names);
            assert(filter_fault(fs, i as int) is None);
        }
        i = i + 1;
    }
    Ok(NormalizedCountFilters { category_filter_indexes: indexes, categories })
}

} // verus!
