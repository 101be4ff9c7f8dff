//! The unread and unseen counts.
//!
//! The unread count is the maintained direct counter plus two live broadcast
//! terms: broadcasts above the read watermark, and explicit unread overrides
//! at or below it.

use vstd::prelude::*;
use super::filters::{
    filter_rows, normalize_count_filters, request_fault, FilteredInboxCountsRequest,
    NormalizedCountFilters,
};
use super::rows::{
    is_muted, muted, Broadcast, BroadcastState, Counters, Notification, NotificationState, Scope,
};
use super::tallies::{
    a_requested_count_counts_the_unread_items, the_unread_count_adds_the_unread_broadcasts,
    the_unseen_count_adds_the_unseen_broadcasts,
};
use crate::error::{ApiError, ErrorCode};
use crate::tally::{lemma_tally_take, tally};
use crate::text::same;

verus! {

/// The counts that drive the inbox and its bell badge.
#[derive(Clone, Copy, Debug, PartialEq, Eq, Structural)]
pub struct InboxCounts {
    pub unread: i32,
    pub unseen: i32,
}

/// An unread count for one filter.
#[derive(Clone, Copy, Debug, PartialEq, Eq, Structural)]
pub struct FilteredInboxCount {
    pub unread: i32,
}

/// Counts in the order of the requested filters.
#[derive(Debug)]
pub struct FilteredInboxCounts {
    pub counts: Vec<FilteredInboxCount>,
}

/// In the inbox, neither archived nor muted.
pub open spec fn countable_broadcast(s: Scope, b: Broadcast) -> bool {
    &&& s.shows_broadcast(b.state)
    &&& !b.state.is_archived(s.counters)
    &&& !s.mutes(b.category@)
}

/// First term: above the read watermark and not explicitly read.
pub open spec fn unread_above(s: Scope, b: Broadcast) -> bool {
    &&& countable_broadcast(s, b)
    &&& b.state.created_at > s.counters.read_watermark
    &&& !(b.state.read_exception matches Some(e) && e.value)
}

/// Second term: explicitly unread at or below the read watermark.
pub open spec fn unread_below(s: Scope, b: Broadcast) -> bool {
    &&& countable_broadcast(s, b)
    &&& b.state.read_exception matches Some(e) && !e.value && e.broadcast_created_at
        <= s.counters.read_watermark
}

/// Above the seen watermark. Archiving is no part of it.
pub open spec fn unseen_broadcast(s: Scope, b: Broadcast) -> bool {
    &&& s.shows_broadcast(b.state)
    &&& b.state.created_at > s.counters.seen_watermark
    &&& !s.mutes(b.category@)
}

/// `n`, or zero when it is negative.
pub open spec fn at_least_zero(n: int) -> int {
    if n < 0 {
        0
    } else {
        n
    }
}

/// The unread count: the maintained counter and both broadcast terms.
pub open spec fn unread_total(s: Scope, broadcasts: Seq<Broadcast>) -> int {
    at_least_zero(
        s.counters.unread_direct_count + tally(broadcasts, |b: Broadcast| unread_above(s, b))
            + tally(broadcasts, |b: Broadcast| unread_below(s, b)),
    )
}

/// The unseen count: the maintained counter and the broadcasts not yet seen.
pub open spec fn unseen_total(s: Scope, broadcasts: Seq<Broadcast>) -> int {
    at_least_zero(
        s.counters.unseen_direct_count + tally(broadcasts, |b: Broadcast| unseen_broadcast(s, b)),
    )
}

fn count_broadcasts(scope: &Scope, broadcasts: &Vec<Broadcast>) -> (r: (u64, u64, u64))
    ensures
        r.0 == tally(broadcasts@, |b: Broadcast| unread_above(*scope, b)),
        r.1 == tally(broadcasts@, |b: Broadcast| unread_below(*scope, b)),
        r.2 == tally(broadcasts@, |b: Broadcast| unseen_broadcast(*scope, b)),
{
    let c: &Counters = &scope.counters;
    let ghost p = |b: Broadcast| unread_above(*scope, b);
    let ghost q = |b: Broadcast| unread_below(*scope, b);
    let ghost u = |b: Broadcast| unseen_broadcast(*scope, b);
    let mut above: u64 = 0;
    let mut below: u64 = 0;
    let mut unseen: u64 = 0;
    let mut i: usize = 0;
    while i < broadcasts.len()
        invariant
            i <= broadcasts.len(),
            c == scope.counters,
            p == |b: Broadcast| unread_above(*scope, b),
            q == |b: Broadcast| unread_below(*scope, b),
            u == |b: Broadcast| unseen_broadcast(*scope, b),
            above == tally(broadcasts@.take(i as int), p) <= i,
            below == tally(broadcasts@.take(i as int), q) <= i,
            unseen == tally(broadcasts@.take(i as int), u) <= i,
        decreases broadcasts.len() - i,
    {
        let b: &Broadcast = &broadcasts[i];
        let st: &BroadcastState = &b.state;
        proof {
            lemma_tally_take(broadcasts@, p, i as int);
            lemma_tally_take(broadcasts@, q, i as int);
            lemma_tally_take(broadcasts@, u, i as int);
        }
        if st.created_at >= scope.subscriber_created_at && !muted(
            &scope.preferences,
            b.category.as_str(),
        ) {
            if st.created_at > c.seen_watermark {
                unseen = unseen + 1;
            }
            if !st.archived(c) {
                if st.created_at > c.read_watermark {
                    let explicitly_read: bool = match st.read_exception {
                        Some(e) => e.value,
                        None => false,
                    };
                    if !explicitly_read {
                        above = above + 1;
                    }
                }
                match st.read_exception {
                    Some(e) => {
                        if !e.value && e.broadcast_created_at <= c.read_watermark {
                            below = below + 1;
                        }
                    },
                    None => {},
                }
            }
        }
        i = i + 1;
    }
    proof {
        assert(broadcasts@.take(i as int) =~= broadcasts@);
    }
    (above, below, unseen)
}

fn total(direct: i32, live: u128) -> (r: Option<i32>)
    requires
        live <= 4 * u64::MAX,
    ensures
        match r {
            Some(n) => n == at_least_zero(direct + live),
            None => at_least_zero(direct + live) > i32::MAX,
        },
{
    let n: i128 = direct as i128 + live as i128;
    if n < 0 {
        Some(0)
    } else if n > i32::MAX as i128 {
        None
    } else {
        Some(n as i32)
    }
}

/// The unread and unseen counts of one subscriber. `broadcasts` are the
/// environment's broadcasts with the subscriber's exceptions. A count that
/// does not fit its column fails.
pub fn fetch_counts_for(scope: &Scope, broadcasts: &Vec<Broadcast>) -> (r: Result<
    InboxCounts,
    ApiError,
>)
    ensures
        match r {
            Ok(counts) => counts.unread == unread_total(*scope, broadcasts@) && counts.unseen
                == unseen_total(*scope, broadcasts@),
            Err(e) => (unread_total(*scope, broadcasts@) > i32::MAX || unseen_total(
                *scope,
                broadcasts@,
            ) > i32::MAX) && e.is(ErrorCode::Internal, "internal error"@),
        },
        (forall|i: int| 0 <= i < broadcasts@.len() ==> (#[trigger] broadcasts@[i]).state.wf())
            ==> (r matches Ok(counts) ==> {
            let sum = scope.counters.unread_direct_count + tally(
                broadcasts@,
                |b: Broadcast|
                    b.state.created_at >= scope.subscriber_created_at && !is_muted(
                        scope.preferences@,
                        b.category@,
                    ) && !b.state.is_archived(scope.counters) && !b.state.is_read(scope.counters),
            );
            counts.unread == if sum < 0 {
                0
            } else {
                sum
            }
        }),
        r matches Ok(counts) ==> {
            let sum = scope.counters.unseen_direct_count + tally(
                broadcasts@,
                |b: Broadcast|
                    b.state.created_at >= scope.subscriber_created_at && b.state.created_at
                        > scope.counters.seen_watermark && !is_muted(
                        scope.preferences@,
                        b.category@,
                    ),
            );
            counts.unseen == if sum < 0 {
                0
            } else {
                sum
            }
        },
{
    proof {
        the_unseen_count_adds_the_unseen_broadcasts(*scope, broadcasts@);
        if forall|i: int| 0 <= i < broadcasts@.len() ==> (#[trigger] broadcasts@[i]).state.wf() {
            the_unread_count_adds_the_unread_broadcasts(*scope, broadcasts@);
        }
    }
    let (above, below, unseen): (u64, u64, u64) = count_broadcasts(scope, broadcasts);
    match (
        total(scope.counters.unread_direct_count, above as u128 + below as u128),
        total(scope.counters.unseen_direct_count, unseen as u128),
    ) {
        (Some(unread), Some(unseen)) => Ok(InboxCounts { unread, unseen }),
        _ => Err(ApiError::internal()),
    }
}

/// In the inbox, neither archived nor muted.
pub open spec fn countable_notification(s: Scope, n: Notification) -> bool {
    &&& s.shows_notification(n)
    &&& !n.state.is_archived(s.counters)
    &&& !s.mutes(n.category@)
}

/// Above the read watermark and not explicitly read.
pub open spec fn direct_above(s: Scope, n: Notification) -> bool {
    &&& countable_notification(s, n)
    &&& n.state.visible_at > s.counters.read_watermark
    &&& n.state.read_at is None
}

/// At or below the read watermark with an unread override.
pub open spec fn direct_below(s: Scope, n: Notification) -> bool {
    &&& countable_notification(s, n)
    &&& n.state.visible_at <= s.counters.read_watermark
    &&& n.state.read_at is None
    &&& n.state.unread_at is Some
}

/// First term of a category: its notifications above the read watermark.
pub open spec fn category_above(s: Scope, category: Seq<char>) -> spec_fn(Notification) -> bool {
    |n: Notification| n.category@ == category && direct_above(s, n)
}

/// Second term of a category: its notifications with an unread override.
pub open spec fn category_below(s: Scope, category: Seq<char>) -> spec_fn(Notification) -> bool {
    |n: Notification| n.category@ == category && direct_below(s, n)
}

/// Third term of a category: its broadcasts above the read watermark.
pub open spec fn category_broadcast_above(s: Scope, category: Seq<char>) -> spec_fn(
    Broadcast,
) -> bool {
    |b: Broadcast| b.category@ == category && unread_above(s, b)
}

/// Fourth term of a category: its broadcasts with an unread override.
pub open spec fn category_broadcast_below(s: Scope, category: Seq<char>) -> spec_fn(
    Broadcast,
) -> bool {
    |b: Broadcast| b.category@ == category && unread_below(s, b)
}

/// The unread items of exactly this category, over both sources.
pub open spec fn category_total(
    s: Scope,
    notifications: Seq<Notification>,
    broadcasts: Seq<Broadcast>,
    category: Seq<char>,
) -> nat {
    tally(notifications, category_above(s, category)) + tally(
        notifications,
        category_below(s, category),
    ) + tally(broadcasts, category_broadcast_above(s, category)) + tally(
        broadcasts,
        category_broadcast_below(s, category),
    )
}

/// The unread items of all the categories that `rows` name for filter `f`.
pub open spec fn filter_total(
    s: Scope,
    notifications: Seq<Notification>,
    broadcasts: Seq<Broadcast>,
    rows: Seq<(int, Seq<char>)>,
    f: int,
) -> nat
    decreases rows.len(),
{
    if rows.len() == 0 {
        0
    } else {
        filter_total(s, notifications, broadcasts, rows.drop_last(), f) + if rows.last().0 == f {
            category_total(s, notifications, broadcasts, rows.last().1)
        } else {
            0
        }
    }
}

fn count_category_notifications(
    scope: &Scope,
    notifications: &Vec<Notification>,
    category: &str,
) -> (r: (u64, u64))
    ensures
        r.0 == tally(notifications@, category_above(*scope, category@)),
        r.1 == tally(notifications@, category_below(*scope, category@)),
{
    let c: &Counters = &scope.counters;
    let ghost p = category_above(*scope, category@);
    let ghost q = category_below(*scope, category@);
    let mut above: u64 = 0;
    let mut below: u64 = 0;
    let mut i: usize = 0;
    while i < notifications.len()
        invariant
            i <= notifications.len(),
            c == scope.counters,
            p == category_above(*scope, category@),
            q == category_below(*scope, category@),
            above == tally(notifications@.take(i as int), p) <= i,
            below == tally(notifications@.take(i as int), q) <= i,
        decreases notifications.len() - i,
    {
        let n: &Notification = &notifications[i];
        let st: &NotificationState = &n.state;
        proof {
            lemma_tally_take(notifications@, p, i as int);
            lemma_tally_take(notifications@, q, i as int);
        }
        if same(n.category.as_str(), category) && st.visible_at <= scope.now && st.read_at.is_none()
            && !st.archived(c) && !muted(&scope.preferences, n.category.as_str()) {
            if st.visible_at > c.read_watermark {
                above = above + 1;
            } else if st.unread_at.is_some() {
                below = below + 1;
            }
        }
        i = i + 1;
    }
    proof {
        assert(notifications@.take(i as int) =~= notifications@);
    }
    (above, below)
}

fn count_category_broadcasts(
    scope: &Scope,
    broadcasts: &Vec<Broadcast>,
    category: &str,
) -> (r: (u64, u64))
    ensures
        r.0 == tally(broadcasts@, category_broadcast_above(*scope, category@)),
        r.1 == tally(broadcasts@, category_broadcast_below(*scope, category@)),
{
    let c: &Counters = &scope.counters;
    let ghost p = category_broadcast_above(*scope, category@);
    let ghost q = category_broadcast_below(*scope, category@);
    let mut above: u64 = 0;
    let mut below: u64 = 0;
    let mut i: usize = 0;
    while i < broadcasts.len()
        invariant
            i <= broadcasts.len(),
            c == scope.counters,
            p == category_broadcast_above(*scope, category@),
            q == category_broadcast_below(*scope, category@),
            above == tally(broadcasts@.take(i as int), p) <= i,
            below == tally(broadcasts@.take(i as int), q) <= i,
        decreases broadcasts.len() - i,
    {
        let b: &Broadcast = &broadcasts[i];
        let st: &BroadcastState = &b.state;
        proof {
            lemma_tally_take(broadcasts@, p, i as int);
            lemma_tally_take(broadcasts@, q, i as int);
        }
        if same(b.category.as_str(), category) && st.created_at >= scope.subscriber_created_at
            && !st.archived(c) && !muted(&scope.preferences, b.category.as_str()) {
            let explicitly_read: bool = match st.read_exception {
                Some(e) => e.value,
                None => false,
            };
            if st.created_at > c.read_watermark && !explicitly_read {
                above = above + 1;
            }
            match st.read_exception {
                Some(e) => {
                    if !e.value && e.broadcast_created_at <= c.read_watermark {
                        below = below + 1;
                    }
                },
                None => {},
            }
        }
        i = i + 1;
    }
    proof {
        assert(broadcasts@.take(i as int) =~= broadcasts@);
    }
    (above, below)
}

proof fn lemma_filter_total_grows(
    s: Scope,
    notifications: Seq<Notification>,
    broadcasts: Seq<Broadcast>,
    rows: Seq<(int, Seq<char>)>,
    f: int,
    k: int,
)
    requires
        0 <= k <= rows.len(),
    ensures
        filter_total(s, notifications, broadcasts, rows.take(k), f) <= filter_total(
            s,
            notifications,
            broadcasts,
            rows,
            f,
        ),
    decreases rows.len(),
{
    if k == rows.len() {
        assert(rows.take(k) =~= rows);
    } else {
        assert(rows.drop_last().take(k) =~= rows.take(k));
        lemma_filter_total_grows(s, notifications, broadcasts, rows.drop_last(), f, k);
    }
}

fn count_filter(
    scope: &Scope,
    notifications: &Vec<Notification>,
    broadcasts: &Vec<Broadcast>,
    filters: &NormalizedCountFilters,
    f: i32,
) -> (r: Option<i32>)
    requires
        filters.wf(),
    ensures
        match r {
            Some(n) => n == filter_total(
                *scope,
                notifications@,
                broadcasts@,
                filters.rows(),
                f as int,
            ),
            None => filter_total(*scope, notifications@, broadcasts@, filters.rows(), f as int)
                > i32::MAX,
        },
{
    let ghost rows = filters.rows();
    let mut sum: u128 = 0;
    let mut k: usize = 0;
    while k < filters.categories.len()
        invariant
            k <= filters.categories.len(),
            filters.wf(),
            rows == filters.rows(),
            sum == filter_total(*scope, notifications@, broadcasts@, rows.take(k as int), f as int),
            sum <= i32::MAX,
        decreases filters.categories.len() - k,
    {
        proof {
            assert(rows.take(k + 1).drop_last() =~= rows.take(k as int));
            assert(rows.take(k + 1).last() == rows[k as int]);
            lemma_filter_total_grows(
                *scope,
                notifications@,
                broadcasts@,
                rows,
                f as int,
                k + 1,
            );
        }
        if filters.category_filter_indexes[k] == f {
            let category: &str = filters.categories[k].as_str();
            let (a, b): (u64, u64) = count_category_notifications(scope, notifications, category);
            let (c, d): (u64, u64) = count_category_broadcasts(scope, broadcasts, category);
            sum = sum + a as u128 + b as u128 + c as u128 + d as u128;
            if sum > i32::MAX as u128 {
                return None;
            }
        }
        k = k + 1;
    }
    proof {
        assert(rows.take(k as int) =~= rows);
    }
    Some(sum as i32)
}

/// Exact unread counts for normalized filters, in filter order, over both
/// sources. A count that does not fit its column fails.
pub fn fetch_filtered_counts_for(
    scope: &Scope,
    notifications: &Vec<Notification>,
    broadcasts: &Vec<Broadcast>,
    filters: &NormalizedCountFilters,
) -> (r: Result<Vec<FilteredInboxCount>, ApiError>)
    requires
        filters.wf(),
    ensures
        match r {
            Ok(counts) => {
                &&& counts@.len() == filters.filter_count()
                &&& forall|f: int|
                    0 <= f < counts@.len() ==> (#[trigger] counts@[f]).unread == filter_total(
                        *scope,
                        notifications@,
                        broadcasts@,
                        filters.rows(),
                        f,
                    )
            },
            Err(e) => {
                &&& exists|f: int|
                    0 <= f < filters.filter_count() && #[trigger] filter_total(
                        *scope,
                        notifications@,
                        broadcasts@,
                        filters.rows(),
                        f,
                    ) > i32::MAX
                &&& e.is(ErrorCode::Internal, "internal error"@)
            },
        },
{
    let mut counts: Vec<FilteredInboxCount> = Vec::new();
    let n: usize = filters.category_filter_indexes.len();
    if n == 0 {
        return Ok(counts);
    }
    let last: i32 = filters.category_filter_indexes[n - 1];
    let mut f: i32 = 0;
    while f <= last
        invariant
            filters.wf(),
            last + 1 == filters.filter_count(),
            0 <= f <= last + 1 <= 100,
            counts@.len() == f,
            forall|g: int|
                0 <= g < f ==> (#[trigger] counts@[g]).unread == filter_total(
                    *scope,
                    notifications@,
                    broadcasts@,
                    filters.rows(),
                    g,
                ),
        decreases last + 1 - f,
    {
        match count_filter(scope, notifications, broadcasts, filters, f) {
            Some(unread) => {
                counts.push(FilteredInboxCount { unread });
            },
            None => {
                return Err(ApiError::internal());
            },
        }
        f = f + 1;
    }
    Ok(counts)
}

/// The unread items that filter `f` of a request asks for.
pub open spec fn requested_total(
    s: Scope,
    notifications: Seq<Notification>,
    broadcasts: Seq<Broadcast>,
    request: FilteredInboxCountsRequest,
    f: int,
) -> nat {
    filter_total(
        s,
        notifications,
        broadcasts,
        filter_rows(request.filters@, request.filters@.len() as int),
        f,
    )
}

/// Exact unread counts for the filters of a request, in request order. A
/// malformed request is refused; a count that does not fit its column fails.
pub fn get_filtered_counts(
    scope: &Scope,
    notifications: &Vec<Notification>,
    broadcasts: &Vec<Broadcast>,
    request: FilteredInboxCountsRequest,
) -> (r: Result<FilteredInboxCounts, ApiError>)
    ensures
        match r {
            Ok(found) => {
                &&& request_fault(request.filters@) is None
                &&& found.counts@.len() == request.filters@.len()
                &&& forall|f: int|
                    0 <= f < found.counts@.len() ==> (#[trigger] found.counts@[f]).unread
                        == requested_total(*scope, notifications@, broadcasts@, request, f)
            },
            Err(e) => match request_fault(request.filters@) {
                Some(m) => e.is(ErrorCode::InvalidRequest, m),
                None => {
                    &&& exists|f: int|
                        0 <= f < request.filters@.len() && #[trigger] requested_total(
                            *scope,
                            notifications@,
                            broadcasts@,
                            request,
                            f,
                        ) > i32::MAX
                    &&& e.is(ErrorCode::Internal, "internal error"@)
                },
            },
        },
        (forall|i: int| 0 <= i < broadcasts@.len() ==> (#[trigger] broadcasts@[i]).state.wf())
            ==> (r matches Ok(found) ==> forall|f: int|
            0 <= f < found.counts@.len() ==> (#[trigger] found.counts@[f]).unread == tally(
                notifications@,
                |n: Notification|
                    request.filters@[f].categories@.map_values(|c: String| c@).contains(n.category@)
                        && n.state.visible_at <= scope.now && !is_muted(
                        scope.preferences@,
                        n.category@,
                    ) && !n.state.is_archived(scope.counters) && !n.state.is_read(scope.counters),
            ) + tally(
                broadcasts@,
                |b: Broadcast|
                    request.filters@[f].categories@.map_values(|c: String| c@).contains(b.category@)
                        && b.state.created_at >= scope.subscriber_created_at && !is_muted(
                        scope.preferences@,
                        b.category@,
                    ) && !b.state.is_archived(scope.counters) && !b.state.is_read(scope.counters),
            )),
{
    let ghost asked = request;
    let filters: NormalizedCountFilters = match normalize_count_filters(request) {
        Ok(f) => f,
        Err(e) => {
            return Err(e);
        },
    };
    match fetch_filtered_counts_for(scope, notifications, broadcasts, &filters) {
        Ok(counts) => {
            proof {
                assert forall|f: int| 0 <= f < counts@.len() implies (#[trigger] counts@[f]).unread
                    == requested_total(*scope, notifications@, broadcasts@, asked, f) by {
                }
                if forall|i: int|
                    0 <= i < broadcasts@.len() ==> (#[trigger] broadcasts@[i]).state.wf() {
                    assert forall|f: int| 0 <= f < counts@.len() implies (
                    #[trigger] counts@[f]).unread == tally(
                        notifications@,
                        |n: Notification|
                            asked.filters@[f].categories@.map_values(|c: String| c@).contains(
                                n.category@,
                            ) && n.state.visible_at <= scope.now && !is_muted(
                                scope.preferences@,
                                n.category@,
                            ) && !n.state.is_archived(scope.counters) && !n.state.is_read(
                                scope.counters,
                            ),
                    ) + tally(
                        broadcasts@,
                        |b: Broadcast|
                            asked.filters@[f].categories@.map_values(|c: String| c@).contains(
                                b.category@,
                            ) && b.state.created_at >= scope.subscriber_created_at && !is_muted(
                                scope.preferences@,
                                b.category@,
                            ) && !b.state.is_archived(scope.counters) && !b.state.is_read(
                                scope.counters,
                            ),
                    ) by {
                        a_requested_count_counts_the_unread_items(
                            *scope,
                            notifications@,
                            broadcasts@,
                            asked,
                            f,
                        );
                    }
                }
            }
            Ok(FilteredInboxCounts { counts })
        },
        Err(e) => {
            proof {
                let f = choose|f: int|
                    0 <= f < filters.filter_count() && #[trigger] filter_total(
                        *scope,
                        notifications@,
                        broadcasts@,
                        filters.rows(),
                        f,
                    ) > i32::MAX;
                assert(requested_total(*scope, notifications@, broadcasts@, asked, f) > i32::MAX);
            }
            Err(e)
        },
    }
}

} // verus!
