//! What the counts come to, item by item.

use vstd::prelude::*;
use super::counts::{
    category_above, category_below, category_broadcast_above, category_broadcast_below,
    category_total, direct_above, direct_below, filter_total, requested_total, unread_above,
    unread_below, unread_total, unseen_broadcast, unseen_total,
};
use super::filters::{
    entries, filter_fault, filter_rows, first_fault, is_category, request_fault,
    FilteredInboxCountsRequest, InboxCountFilter,
};
use super::laws::{names_once, normalizing_keeps_each_name_once, window_covers, InboxState};
use super::list::{lists_broadcast, lists_notification, ListWindow};
use super::rows::{is_muted, Broadcast, Notification, Scope};
use crate::tally::{lemma_tally_none, lemma_tally_same, lemma_tally_split, tally};

verus! {

/// The unread broadcasts are those above the read watermark that are not
/// explicitly read and those at or below it that are explicitly unread.
proof fn lemma_unread_broadcasts(
    s: Scope,
    broadcasts: Seq<Broadcast>,
    of: spec_fn(Broadcast) -> bool,
)
    requires
        forall|i: int| 0 <= i < broadcasts.len() ==> (#[trigger] broadcasts[i]).state.wf(),
    ensures
        tally(broadcasts, |b: Broadcast| of(b) && unread_above(s, b)) + tally(
            broadcasts,
            |b: Broadcast| of(b) && unread_below(s, b),
        ) == tally(
            broadcasts,
            |b: Broadcast|
                of(b) && b.state.created_at >= s.subscriber_created_at && !is_muted(
                    s.preferences@,
                    b.category@,
                ) && !b.state.is_archived(s.counters) && !b.state.is_read(s.counters),
        ),
{
    let p = |b: Broadcast| of(b) && unread_above(s, b);
    let q = |b: Broadcast| of(b) && unread_below(s, b);
    let e = |b: Broadcast|
        of(b) && b.state.created_at >= s.subscriber_created_at && !is_muted(
            s.preferences@,
            b.category@,
        ) && !b.state.is_archived(s.counters) && !b.state.is_read(s.counters);
    assert forall|i: int| 0 <= i < broadcasts.len() implies !(p(#[trigger] broadcasts[i]) && q(
        broadcasts[i],
    )) && e(broadcasts[i]) == (p(broadcasts[i]) || q(broadcasts[i])) by {
        assert(broadcasts[i].state.wf());
    }
    lemma_tally_split(broadcasts, p, q, e);
}

/// What each term counts. Broadcasts: above the read watermark those that are
/// not explicitly read, below it those whose exception says unread and was
/// passed. Notifications: above it those that are not explicitly read, below
/// it those with an unread override that no explicit read outranks. All of
/// them in the inbox, neither muted nor archived.
pub proof fn what_each_term_counts(s: Scope, n: Notification, b: Broadcast)
    ensures
        ({
            let counted = b.state.created_at >= s.subscriber_created_at && !is_muted(
                s.preferences@,
                b.category@,
            ) && !b.state.is_archived(s.counters);
            &&& unread_above(s, b) <==> counted && b.state.created_at > s.counters.read_watermark
                && (b.state.read_exception matches Some(e) ==> !e.value)
            &&& unread_below(s, b) <==> counted && b.state.read_exception is Some
                && !b.state.read_exception->0.value
                && b.state.read_exception->0.broadcast_created_at <= s.counters.read_watermark
        }),
        ({
            let counted = n.state.visible_at <= s.now && !is_muted(s.preferences@, n.category@)
                && !n.state.is_archived(s.counters) && n.state.read_at is None;
            &&& direct_above(s, n) <==> counted && n.state.visible_at > s.counters.read_watermark
            &&& direct_below(s, n) <==> counted && n.state.visible_at <= s.counters.read_watermark
                && n.state.unread_at is Some
        }),
{
}

/// The unread count is the maintained counter and one for each broadcast of
/// the inbox that is neither muted nor archived nor read; below zero it is
/// zero.
pub proof fn the_unread_count_adds_the_unread_broadcasts(s: Scope, broadcasts: Seq<Broadcast>)
    requires
        forall|i: int| 0 <= i < broadcasts.len() ==> (#[trigger] broadcasts[i]).state.wf(),
    ensures
        ({
            let sum = s.counters.unread_direct_count + tally(
                broadcasts,
                |b: Broadcast|
                    b.state.created_at >= s.subscriber_created_at && !is_muted(
                        s.preferences@,
                        b.category@,
                    ) && !b.state.is_archived(s.counters) && !b.state.is_read(s.counters),
            );
            &&& sum >= 0 ==> unread_total(s, broadcasts) == sum
            &&& sum < 0 ==> unread_total(s, broadcasts) == 0
        }),
{
    let any = |b: Broadcast| true;
    lemma_unread_broadcasts(s, broadcasts, any);
    lemma_tally_same(
        broadcasts,
        |b: Broadcast| any(b) && unread_above(s, b),
        broadcasts,
        |b: Broadcast| unread_above(s, b),
    );
    lemma_tally_same(
        broadcasts,
        |b: Broadcast| any(b) && unread_below(s, b),
        broadcasts,
        |b: Broadcast| unread_below(s, b),
    );
    lemma_tally_same(
        broadcasts,
        |b: Broadcast|
            any(b) && b.state.created_at >= s.subscriber_created_at && !is_muted(
                s.preferences@,
                b.category@,
            ) && !b.state.is_archived(s.counters) && !b.state.is_read(s.counters),
        broadcasts,
        |b: Broadcast|
            b.state.created_at >= s.subscriber_created_at && !is_muted(
                s.preferences@,
                b.category@,
            ) && !b.state.is_archived(s.counters) && !b.state.is_read(s.counters),
    );
}

/// The unseen count is the maintained counter and one for each broadcast of
/// the inbox that is above the seen watermark and not muted; below zero it is
/// zero.
pub proof fn the_unseen_count_adds_the_unseen_broadcasts(s: Scope, broadcasts: Seq<Broadcast>)
    ensures
        ({
            let sum = s.counters.unseen_direct_count + tally(
                broadcasts,
                |b: Broadcast|
                    b.state.created_at >= s.subscriber_created_at && b.state.created_at
                        > s.counters.seen_watermark && !is_muted(s.preferences@, b.category@),
            );
            &&& sum >= 0 ==> unseen_total(s, broadcasts) == sum
            &&& sum < 0 ==> unseen_total(s, broadcasts) == 0
        }),
{
    lemma_tally_same(
        broadcasts,
        |b: Broadcast| unseen_broadcast(s, b),
        broadcasts,
        |b: Broadcast|
            b.state.created_at >= s.subscriber_created_at && b.state.created_at
                > s.counters.seen_watermark && !is_muted(s.preferences@, b.category@),
    );
}

/// The count of a category is the number of its unread notifications and
/// broadcasts in the inbox that are neither muted nor archived.
pub proof fn a_category_count_counts_the_unread_items(
    s: Scope,
    notifications: Seq<Notification>,
    broadcasts: Seq<Broadcast>,
    category: Seq<char>,
)
    requires
        forall|i: int| 0 <= i < broadcasts.len() ==> (#[trigger] broadcasts[i]).state.wf(),
    ensures
        category_total(s, notifications, broadcasts, category) == tally(
            notifications,
            |n: Notification|
                n.category@ == category && n.state.visible_at <= s.now && !is_muted(
                    s.preferences@,
                    n.category@,
                ) && !n.state.is_archived(s.counters) && !n.state.is_read(s.counters),
        ) + tally(
            broadcasts,
            |b: Broadcast|
                b.category@ == category && b.state.created_at >= s.subscriber_created_at
                    && !is_muted(s.preferences@, b.category@) && !b.state.is_archived(s.counters)
                    && !b.state.is_read(s.counters),
        ),
{
    let p = category_above(s, category);
    let q = category_below(s, category);
    let e = |n: Notification|
        n.category@ == category && n.state.visible_at <= s.now && !is_muted(
            s.preferences@,
            n.category@,
        ) && !n.state.is_archived(s.counters) && !n.state.is_read(s.counters);
    lemma_tally_split(notifications, p, q, e);
    let of = |b: Broadcast| b.category@ == category;
    lemma_unread_broadcasts(s, broadcasts, of);
    lemma_tally_same(
        broadcasts,
        |b: Broadcast| of(b) && unread_above(s, b),
        broadcasts,
        category_broadcast_above(s, category),
    );
    lemma_tally_same(
        broadcasts,
        |b: Broadcast| of(b) && unread_below(s, b),
        broadcasts,
        category_broadcast_below(s, category),
    );
    lemma_tally_same(
        broadcasts,
        |b: Broadcast|
            of(b) && b.state.created_at >= s.subscriber_created_at && !is_muted(
                s.preferences@,
                b.category@,
            ) && !b.state.is_archived(s.counters) && !b.state.is_read(s.counters),
        broadcasts,
        |b: Broadcast|
            b.category@ == category && b.state.created_at >= s.subscriber_created_at && !is_muted(
                s.preferences@,
                b.category@,
            ) && !b.state.is_archived(s.counters) && !b.state.is_read(s.counters),
    );
}

proof fn lemma_filter_count(
    s: Scope,
    notifications: Seq<Notification>,
    broadcasts: Seq<Broadcast>,
    rows: Seq<(int, Seq<char>)>,
    f: int,
)
    requires
        forall|i: int| 0 <= i < broadcasts.len() ==> (#[trigger] broadcasts[i]).state.wf(),
        names_once(rows, f),
    ensures
        filter_total(s, notifications, broadcasts, rows, f) == tally(
            notifications,
            |n: Notification|
                rows.contains((f, n.category@)) && n.state.visible_at <= s.now && !is_muted(
                    s.preferences@,
                    n.category@,
                ) && !n.state.is_archived(s.counters) && !n.state.is_read(s.counters),
        ) + tally(
            broadcasts,
            |b: Broadcast|
                rows.contains((f, b.category@)) && b.state.created_at >= s.subscriber_created_at
                    && !is_muted(s.preferences@, b.category@) && !b.state.is_archived(s.counters)
                    && !b.state.is_read(s.counters),
        ),
    decreases rows.len(),
{
    let either = |n: Notification|
        rows.contains((f, n.category@)) && n.state.visible_at <= s.now && !is_muted(
            s.preferences@,
            n.category@,
        ) && !n.state.is_archived(s.counters) && !n.state.is_read(s.counters);
    let either_b = |b: Broadcast|
        rows.contains((f, b.category@)) && b.state.created_at >= s.subscriber_created_at
            && !is_muted(s.preferences@, b.category@) && !b.state.is_archived(s.counters)
            && !b.state.is_read(s.counters);
    if rows.len() == 0 {
        lemma_tally_none(notifications, either);
        lemma_tally_none(broadcasts, either_b);
    } else {
        let short = rows.drop_last();
        let (g, category) = rows.last();
        assert forall|i: int, j: int|
            0 <= i < short.len() && 0 <= j < short.len() && (#[trigger] short[i]).0 == f && (
            #[trigger] short[j]).0 == f && short[i].1 == short[j].1 implies i == j by {
            assert(rows[i] == short[i] && rows[j] == short[j]);
        }
        lemma_filter_count(s, notifications, broadcasts, short, f);
        let p = |n: Notification|
            short.contains((f, n.category@)) && n.state.visible_at <= s.now && !is_muted(
                s.preferences@,
                n.category@,
            ) && !n.state.is_archived(s.counters) && !n.state.is_read(s.counters);
        let p_b = |b: Broadcast|
            short.contains((f, b.category@)) && b.state.created_at >= s.subscriber_created_at
                && !is_muted(s.preferences@, b.category@) && !b.state.is_archived(s.counters)
                && !b.state.is_read(s.counters);
        assert forall|c: Seq<char>| #[trigger] rows.contains((f, c)) == (short.contains((f, c)) || (
        g == f && category == c)) by {
            if rows.contains((f, c)) {
                let i = choose|i: int| 0 <= i < rows.len() && rows[i] == (f, c);
                if i < short.len() {
                    assert(short[i] == (f, c));
                }
            }
            if short.contains((f, c)) {
                let i = choose|i: int| 0 <= i < short.len() && short[i] == (f, c);
                assert(rows[i] == (f, c));
            }
            assert(rows[rows.len() - 1] == (g, category));
        }
        if g == f {
            assert(!short.contains((f, category))) by {
                if short.contains((f, category)) {
                    let i = choose|i: int| 0 <= i < short.len() && short[i] == (f, category);
                    assert(rows[i] == (f, category) && rows[rows.len() - 1] == (f, category));
                }
            }
            a_category_count_counts_the_unread_items(s, notifications, broadcasts, category);
            let q = |n: Notification|
                n.category@ == category && n.state.visible_at <= s.now && !is_muted(
                    s.preferences@,
                    n.category@,
                ) && !n.state.is_archived(s.counters) && !n.state.is_read(s.counters);
            let q_b = |b: Broadcast|
                b.category@ == category && b.state.created_at >= s.subscriber_created_at
                    && !is_muted(s.preferences@, b.category@) && !b.state.is_archived(s.counters)
                    && !b.state.is_read(s.counters);
            lemma_tally_split(notifications, p, q, either);
            lemma_tally_split(broadcasts, p_b, q_b, either_b);
        } else {
            lemma_tally_same(notifications, p, notifications, either);
            lemma_tally_same(broadcasts, p_b, broadcasts, either_b);
        }
    }
}

/// The count of filter `f` of a request is the number of notifications and
/// broadcasts in the inbox that are neither muted nor archived nor read and
/// whose category the filter names. However often it names a category, no item
/// counts twice, and no count is cut off.
pub proof fn a_requested_count_counts_the_unread_items(
    s: Scope,
    notifications: Seq<Notification>,
    broadcasts: Seq<Broadcast>,
    request: FilteredInboxCountsRequest,
    f: int,
)
    requires
        forall|i: int| 0 <= i < broadcasts.len() ==> (#[trigger] broadcasts[i]).state.wf(),
        0 <= f < request.filters@.len(),
    ensures
        requested_total(s, notifications, broadcasts, request, f) == tally(
            notifications,
            |n: Notification|
                request.filters@[f].categories@.map_values(|c: String| c@).contains(n.category@)
                    && n.state.visible_at <= s.now && !is_muted(s.preferences@, n.category@)
                    && !n.state.is_archived(s.counters) && !n.state.is_read(s.counters),
        ) + tally(
            broadcasts,
            |b: Broadcast|
                request.filters@[f].categories@.map_values(|c: String| c@).contains(b.category@)
                    && b.state.created_at >= s.subscriber_created_at && !is_muted(
                    s.preferences@,
                    b.category@,
                ) && !b.state.is_archived(s.counters) && !b.state.is_read(s.counters),
        ),
{
    let n = request.filters@.len() as int;
    let rows = filter_rows(request.filters@, n);
    let names = request.filters@[f].categories@.map_values(|c: String| c@);
    assert forall|name: Seq<char>| #[trigger] rows.contains((f, name)) == names.contains(name) by {
        normalizing_keeps_each_name_once(request.filters@, n, f, name);
    }
    normalizing_keeps_each_name_once(request.filters@, n, f, names[0]);
    lemma_filter_count(s, notifications, broadcasts, rows, f);
    lemma_tally_same(
        notifications,
        |n: Notification|
            rows.contains((f, n.category@)) && n.state.visible_at <= s.now && !is_muted(
                s.preferences@,
                n.category@,
            ) && !n.state.is_archived(s.counters) && !n.state.is_read(s.counters),
        notifications,
        |n: Notification|
            names.contains(n.category@) && n.state.visible_at <= s.now && !is_muted(
                s.preferences@,
                n.category@,
            ) && !n.state.is_archived(s.counters) && !n.state.is_read(s.counters),
    );
    lemma_tally_same(
        broadcasts,
        |b: Broadcast|
            rows.contains((f, b.category@)) && b.state.created_at >= s.subscriber_created_at
                && !is_muted(s.preferences@, b.category@) && !b.state.is_archived(s.counters)
                && !b.state.is_read(s.counters),
        broadcasts,
        |b: Broadcast|
            names.contains(b.category@) && b.state.created_at >= s.subscriber_created_at
                && !is_muted(s.preferences@, b.category@) && !b.state.is_archived(s.counters)
                && !b.state.is_read(s.counters),
    );
}

/// The count of filter `f` of a request equals the number of notifications and
/// broadcasts that the unread view lists and whose category the filter names.
pub proof fn a_requested_count_agrees_with_the_unread_view(
    st: InboxState,
    w: ListWindow,
    request: FilteredInboxCountsRequest,
    f: int,
)
    requires
        st.wf(),
        window_covers(st, w),
        w.filter is Unread,
        0 <= f < request.filters@.len(),
    ensures
        requested_total(st.scope, st.notifications, st.broadcasts, request, f) == tally(
            st.notifications,
            |n: Notification|
                request.filters@[f].categories@.map_values(|c: String| c@).contains(n.category@)
                    && lists_notification(st.scope, w, n),
        ) + tally(
            st.broadcasts,
            |b: Broadcast|
                request.filters@[f].categories@.map_values(|c: String| c@).contains(b.category@)
                    && lists_broadcast(st.scope, w, b),
        ),
{
    let s = st.scope;
    let names = request.filters@[f].categories@.map_values(|c: String| c@);
    a_requested_count_counts_the_unread_items(s, st.notifications, st.broadcasts, request, f);
    let p = |n: Notification|
        names.contains(n.category@) && n.state.visible_at <= s.now && !is_muted(
            s.preferences@,
            n.category@,
        ) && !n.state.is_archived(s.counters) && !n.state.is_read(s.counters);
    let q = |n: Notification| names.contains(n.category@) && lists_notification(s, w, n);
    assert forall|i: int| 0 <= i < st.notifications.len() implies p(#[trigger] st.notifications[i])
        == q(st.notifications[i]) by {
        assert(w.below(st.notifications[i].state.visible_at, st.notifications[i].id));
    }
    lemma_tally_same(st.notifications, p, st.notifications, q);
    let a = |b: Broadcast|
        names.contains(b.category@) && b.state.created_at >= s.subscriber_created_at && !is_muted(
            s.preferences@,
            b.category@,
        ) && !b.state.is_archived(s.counters) && !b.state.is_read(s.counters);
    let c = |b: Broadcast| names.contains(b.category@) && lists_broadcast(s, w, b);
    assert forall|i: int| 0 <= i < st.broadcasts.len() implies a(#[trigger] st.broadcasts[i]) == c(
        st.broadcasts[i],
    ) by {
        assert(w.below(st.broadcasts[i].state.created_at, st.broadcasts[i].id));
    }
    lemma_tally_same(st.broadcasts, a, st.broadcasts, c);
}

/// The number of category entries is the sum of the filters' own.
pub proof fn entries_add_up(filters: Seq<InboxCountFilter>, n: int)
    requires
        0 <= n < filters.len(),
    ensures
        entries(filters, 0) == 0,
        entries(filters, n + 1) == entries(filters, n) + filters[n].categories@.len(),
{
}

proof fn lemma_entries_grow(filters: Seq<InboxCountFilter>, m: int, n: int)
    requires
        0 <= m <= n <= filters.len(),
    ensures
        entries(filters, m) <= entries(filters, n),
    decreases n,
{
    if m < n {
        lemma_entries_grow(filters, m, n - 1);
    }
}

proof fn lemma_no_fault(filters: Seq<InboxCountFilter>, n: int)
    requires
        0 <= n <= filters.len(),
    ensures
        first_fault(filters, n) is None <==> forall|i: int|
            0 <= i < n ==> #[trigger] filter_fault(filters, i) is None,
    decreases n,
{
    if n > 0 {
        lemma_no_fault(filters, n - 1);
        if first_fault(filters, n) is None {
            assert(filter_fault(filters, n - 1) is None);
        }
        if forall|i: int| 0 <= i < n ==> #[trigger] filter_fault(filters, i) is None {
            assert(filter_fault(filters, n - 1) is None);
        }
    }
}

/// A request is accepted exactly when it has 1 to 100 filters, each of them
/// with a category, no more than 100 category entries in all, and every
/// category 1 to 255 characters long.
pub proof fn what_request_is_accepted(filters: Seq<InboxCountFilter>)
    ensures
        request_fault(filters) is None <==> 1 <= filters.len() <= 100 && entries(
            filters,
            filters.len() as int,
        ) <= 100 && (forall|i: int|
            0 <= i < filters.len() ==> (#[trigger] filters[i]).categories@.len() >= 1) && (forall|
            i: int,
            j: int,
        |
            0 <= i < filters.len() && 0 <= j < (#[trigger] filters[i]).categories@.len() ==> 1
                <= (#[trigger] filters[i].categories@[j])@.len() <= 255),
{
    let n = filters.len() as int;
    lemma_no_fault(filters, n);
    if request_fault(filters) is None {
        assert forall|i: int| 0 <= i < n implies (#[trigger] filters[i]).categories@.len() >= 1 by {
            assert(filter_fault(filters, i) is None);
        }
        assert forall|i: int, j: int|
            0 <= i < n && 0 <= j < (#[trigger] filters[i]).categories@.len() implies 1 <= (
        #[trigger] filters[i].categories@[j])@.len() <= 255 by {
            assert(filter_fault(filters, i) is None);
            assert(filters[i].names()[j] == filters[i].categories@[j]@);
        }
        assert(filter_fault(filters, n - 1) is None);
    }
    if 1 <= n <= 100 && entries(filters, n) <= 100 && (forall|i: int|
        0 <= i < n ==> (#[trigger] filters[i]).categories@.len() >= 1) && (forall|i: int, j: int|
        0 <= i < n && 0 <= j < (#[trigger] filters[i]).categories@.len() ==> 1 <= (
        #[trigger] filters[i].categories@[j])@.len() <= 255) {
        assert forall|i: int| 0 <= i < n implies #[trigger] filter_fault(filters, i) is None by {
            lemma_entries_grow(filters, i + 1, n);
            assert(filters[i].categories@.len() >= 1);
            assert forall|j: int| 0 <= j < filters[i].names().len() implies 1 <= (
            #[trigger] filters[i].names()[j]).len() <= 255 by {
                assert(filters[i].names()[j] == filters[i].categories@[j]@);
            }
        }
    }
}

/// What a refused request is told: the number of filters first, else what is
/// wrong with the first filter that is wrong, an empty filter before too many
/// entries before a bad name.
pub proof fn what_a_refused_request_is_told(filters: Seq<InboxCountFilter>, i: int)
    requires
        0 <= i < filters.len(),
        forall|k: int| 0 <= k < i ==> #[trigger] filter_fault(filters, k) is None,
        filter_fault(filters, i) is Some,
    ensures
        filters.len() > 100 ==> request_fault(filters) == Some(
            "filters must contain 1–100 entries"@,
        ),
        filters.len() <= 100 && filters[i].categories@.len() == 0 ==> request_fault(filters)
            == Some("each filter must contain at least one category"@),
        filters.len() <= 100 && filters[i].categories@.len() > 0 && entries(filters, i + 1) > 100
            ==> request_fault(filters) == Some("filters must contain at most 100 category entries"@),
        filters.len() <= 100 && filters[i].categories@.len() > 0 && entries(filters, i + 1) <= 100
            ==> request_fault(filters) == Some("category must be 1–255 characters"@) && exists|
            j: int,
        |
            0 <= j < filters[i].categories@.len() && !(1 <= (
            #[trigger] filters[i].categories@[j])@.len() <= 255),
{
    lemma_no_fault(filters, i);
    lemma_first_fault(filters, i, filters.len() as int);
    if filters[i].categories@.len() > 0 && entries(filters, i + 1) <= 100 {
        let names = filters[i].names();
        let j = choose|j: int|
            0 <= j < names.len() && !is_category(#[trigger] names[j]);
        assert(names[j] == filters[i].categories@[j]@);
        assert(!(1 <= filters[i].categories@[j]@.len() <= 255));
    }
}

proof fn lemma_first_fault(filters: Seq<InboxCountFilter>, i: int, n: int)
    requires
        0 <= i < n,
        first_fault(filters, i) is None,
        filter_fault(filters, i) is Some,
    ensures
        first_fault(filters, n) == filter_fault(filters, i),
    decreases n,
{
    if i < n - 1 {
        lemma_first_fault(filters, i, n - 1);
    }
}

/// A request without filters is told how many there may be.
pub proof fn a_request_without_filters_is_refused(filters: Seq<InboxCountFilter>)
    requires
        filters.len() == 0,
    ensures
        request_fault(filters) == Some("filters must contain 1–100 entries"@),
{
}

} // verus!
