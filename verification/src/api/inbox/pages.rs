//! What the pages of the list hold, view by view and page after page.

use vstd::prelude::*;
use super::list::{
    broadcast_arm, broadcast_row, direct_arm, is_page, lists_broadcast, lists_notification,
    newest_first, notification_row, InboxFilter, ListWindow, MergedRow,
};
use super::rows::{Broadcast, Notification, Scope};
use crate::outside::{MAX_MICROS, MIN_MICROS};

verus! {

/// Every row that the window of a view holds, over both sources.
pub open spec fn listed_rows(
    s: Scope,
    w: ListWindow,
    notifications: Seq<(Notification, serde_json::Value)>,
    broadcasts: Seq<(Broadcast, serde_json::Value)>,
) -> Seq<MergedRow> {
    direct_arm(s, w, notifications) + broadcast_arm(s, w, broadcasts)
}

/// The window of the page after one that ends with `last`.
pub open spec fn next_window(w: ListWindow, last: MergedRow) -> ListWindow {
    ListWindow { cursor_ts: last.occurred_at, cursor_id: last.id, ..w }
}

/// No two rows share instant and id, so the order of the list is total.
pub open spec fn keys_are_distinct(rows: Seq<MergedRow>) -> bool {
    forall|i: int, j: int|
        0 <= i < rows.len() && 0 <= j < rows.len() && (#[trigger] rows[i]).occurred_at == (
        #[trigger] rows[j]).occurred_at && rows[i].id == rows[j].id ==> i == j
}

/// Every item stands at an instant that the calendar has.
pub open spec fn instants_exist(
    notifications: Seq<(Notification, serde_json::Value)>,
    broadcasts: Seq<(Broadcast, serde_json::Value)>,
) -> bool {
    &&& forall|i: int|
        0 <= i < notifications.len() ==> MIN_MICROS <= (
        #[trigger] notifications[i]).0.state.visible_at <= MAX_MICROS
    &&& forall|i: int|
        0 <= i < broadcasts.len() ==> MIN_MICROS <= (
        #[trigger] broadcasts[i]).0.state.created_at <= MAX_MICROS
}

/// A row of the inbox in a view carries the flags that the view is named for.
pub proof fn flags_agree_with_the_view(
    s: Scope,
    w: ListWindow,
    notifications: Seq<(Notification, serde_json::Value)>,
    broadcasts: Seq<(Broadcast, serde_json::Value)>,
)
    ensures
        forall|i: int|
            0 <= i < listed_rows(s, w, notifications, broadcasts).len() ==> w.filter.admits(
                (#[trigger] listed_rows(s, w, notifications, broadcasts)[i]).read,
                listed_rows(s, w, notifications, broadcasts)[i].archived,
            ),
{
    let p = |n: (Notification, serde_json::Value)| lists_notification(s, w, n.0);
    let q = |b: (Broadcast, serde_json::Value)| lists_broadcast(s, w, b.0);
    let rows = listed_rows(s, w, notifications, broadcasts);
    let direct = notifications.filter(p);
    let wide = broadcasts.filter(q);
    assert forall|i: int| 0 <= i < rows.len() implies w.filter.admits(
        (#[trigger] rows[i]).read,
        rows[i].archived,
    ) by {
        if i < direct.len() {
            notifications.lemma_filter_pred(p, i);
        } else {
            broadcasts.lemma_filter_pred(q, i - direct.len());
        }
    }
}

/// Narrowing what is listed is filtering the rows.
pub(crate) proof fn lemma_narrower<A>(
    items: Seq<A>,
    row: spec_fn(A) -> MergedRow,
    p: spec_fn(A) -> bool,
    q: spec_fn(A) -> bool,
    keep: spec_fn(MergedRow) -> bool,
)
    requires
        forall|i: int|
            0 <= i < items.len() ==> q(#[trigger] items[i]) == (p(items[i]) && keep(row(items[i]))),
    ensures
        items.filter(q).map_values(row) == items.filter(p).map_values(row).filter(keep),
    decreases items.len(),
{
    reveal_with_fuel(Seq::filter, 2);
    if items.len() > 0 {
        let short = items.drop_last();
        let x = items.last();
        assert forall|i: int| 0 <= i < short.len() implies q(#[trigger] short[i]) == (p(short[i])
            && keep(row(short[i]))) by {
            assert(short[i] == items[i]);
        }
        lemma_narrower(short, row, p, q, keep);
        assert(x == items[items.len() - 1]);
        let wide = items.filter(p).map_values(row);
        let wide_short = short.filter(p).map_values(row);
        if p(x) {
            assert(wide =~= wide_short.push(row(x)));
            assert(wide.drop_last() =~= wide_short);
        } else {
            assert(wide =~= wide_short);
        }
        if q(x) {
            assert(items.filter(q).map_values(row) =~= short.filter(q).map_values(row).push(row(x)));
        } else {
            assert(items.filter(q).map_values(row) =~= short.filter(q).map_values(row));
        }
    } else {
        assert(items.filter(q).map_values(row) =~= items.filter(p).map_values(row).filter(keep));
    }
}

/// A window that lists what another lists, as far as `keep` holds, lists the
/// rows of the other for which `keep` holds.
proof fn lemma_narrower_window(
    s: Scope,
    w: ListWindow,
    v: ListWindow,
    keep: spec_fn(MergedRow) -> bool,
    notifications: Seq<(Notification, serde_json::Value)>,
    broadcasts: Seq<(Broadcast, serde_json::Value)>,
)
    requires
        forall|n: (Notification, serde_json::Value)|
            #[trigger] lists_notification(s, v, n.0) == (lists_notification(s, w, n.0) && keep(
                notification_row(s, n),
            )),
        forall|b: (Broadcast, serde_json::Value)|
            #[trigger] lists_broadcast(s, v, b.0) == (lists_broadcast(s, w, b.0) && keep(
                broadcast_row(s, b),
            )),
    ensures
        listed_rows(s, v, notifications, broadcasts) == listed_rows(
            s,
            w,
            notifications,
            broadcasts,
        ).filter(keep),
{
    lemma_narrower(
        notifications,
        |n: (Notification, serde_json::Value)| notification_row(s, n),
        |n: (Notification, serde_json::Value)| lists_notification(s, w, n.0),
        |n: (Notification, serde_json::Value)| lists_notification(s, v, n.0),
        keep,
    );
    lemma_narrower(
        broadcasts,
        |b: (Broadcast, serde_json::Value)| broadcast_row(s, b),
        |b: (Broadcast, serde_json::Value)| lists_broadcast(s, w, b.0),
        |b: (Broadcast, serde_json::Value)| lists_broadcast(s, v, b.0),
        keep,
    );
    Seq::filter_distributes_over_add(
        direct_arm(s, w, notifications),
        broadcast_arm(s, w, broadcasts),
        keep,
    );
}

/// The unread view is the unread part of the default view: the view and the
/// flag never disagree.
pub proof fn unread_view_is_the_unread_part(
    s: Scope,
    w: ListWindow,
    notifications: Seq<(Notification, serde_json::Value)>,
    broadcasts: Seq<(Broadcast, serde_json::Value)>,
)
    requires
        w.filter is Default,
    ensures
        listed_rows(
            s,
            ListWindow { filter: InboxFilter::Unread, ..w },
            notifications,
            broadcasts,
        ) == listed_rows(s, w, notifications, broadcasts).filter(|r: MergedRow| !r.read),
{
    let v = ListWindow { filter: InboxFilter::Unread, ..w };
    lemma_narrower_window(s, w, v, |r: MergedRow| !r.read, notifications, broadcasts);
}

/// What a filter leaves of rows with distinct keys has distinct keys.
pub(crate) proof fn lemma_filter_keeps_keys_distinct(rows: Seq<MergedRow>, keep: spec_fn(MergedRow) -> bool)
    requires
        keys_are_distinct(rows),
    ensures
        keys_are_distinct(rows.filter(keep)),
    decreases rows.len(),
{
    reveal(Seq::filter);
    if rows.len() > 0 {
        let short = rows.drop_last();
        let x = rows.last();
        assert forall|i: int, j: int|
            0 <= i < short.len() && 0 <= j < short.len() && (#[trigger] short[i]).occurred_at == (
            #[trigger] short[j]).occurred_at && short[i].id == short[j].id implies i == j by {
            assert(rows[i] == short[i] && rows[j] == short[j]);
        }
        lemma_filter_keeps_keys_distinct(short, keep);
        let kept = short.filter(keep);
        assert forall|i: int| 0 <= i < kept.len() implies (#[trigger] kept[i]).occurred_at
            != x.occurred_at || kept[i].id != x.id by {
            assert(kept.contains(kept[i]));
            short.lemma_filter_contains_rev(keep, kept[i]);
            let k = choose|k: int| 0 <= k < short.len() && short[k] == kept[i];
            assert(rows[k] == kept[i] && rows[rows.len() - 1] == x);
        }
    }
}

/// What a filter leaves of rows that stand newest first stands newest first.
pub(crate) proof fn lemma_filter_keeps_the_order(
    rows: Seq<MergedRow>,
    keep: spec_fn(MergedRow) -> bool,
)
    requires
        newest_first(rows),
    ensures
        newest_first(rows.filter(keep)),
    decreases rows.len(),
{
    reveal(Seq::filter);
    if rows.len() > 0 {
        let short = rows.drop_last();
        let x = rows.last();
        assert forall|i: int, j: int| 0 <= i < j < short.len() implies !(
        #[trigger] short[j]).newer(#[trigger] short[i]) by {
            assert(rows[i] == short[i] && rows[j] == short[j]);
        }
        lemma_filter_keeps_the_order(short, keep);
        let kept = short.filter(keep);
        assert forall|i: int| 0 <= i < kept.len() implies !x.newer(#[trigger] kept[i]) by {
            assert(kept.contains(kept[i]));
            short.lemma_filter_contains_rev(keep, kept[i]);
            let k = choose|k: int| 0 <= k < short.len() && short[k] == kept[i];
            assert(rows[k] == kept[i] && rows[rows.len() - 1] == x);
        }
    }
}

pub(crate) proof fn lemma_filter_counts(rows: Seq<MergedRow>, keep: spec_fn(MergedRow) -> bool, x: MergedRow)
    ensures
        rows.filter(keep).to_multiset().count(x) == if keep(x) {
            rows.to_multiset().count(x)
        } else {
            0
        },
    decreases rows.len(),
{
    broadcast use vstd::seq_lib::group_to_multiset_ensures;
    broadcast use vstd::multiset::group_multiset_axioms;

    reveal_with_fuel(Seq::filter, 2);
    if rows.len() > 0 {
        lemma_filter_counts(rows.drop_last(), keep, x);
        assert(rows =~= rows.drop_last().push(rows.last()));
    } else {
        assert(rows.filter(keep) =~= rows);
        assert(rows.to_multiset().count(x) == 0);
    }
}

proof fn lemma_distinct_keys_count_once(rows: Seq<MergedRow>, x: MergedRow)
    requires
        keys_are_distinct(rows),
    ensures
        rows.to_multiset().count(x) <= 1,
    decreases rows.len(),
{
    broadcast use vstd::seq_lib::group_to_multiset_ensures;
    broadcast use vstd::multiset::group_multiset_axioms;

    if rows.len() > 0 {
        let short = rows.drop_last();
        assert forall|i: int, j: int|
            0 <= i < short.len() && 0 <= j < short.len() && (#[trigger] short[i]).occurred_at == (
            #[trigger] short[j]).occurred_at && short[i].id == short[j].id implies i == j by {
            assert(rows[i] == short[i] && rows[j] == short[j]);
        }
        lemma_distinct_keys_count_once(short, x);
        assert(rows =~= short.push(rows.last()));
        if x == rows.last() && short.to_multiset().count(x) > 0 {
            vstd::seq_lib::to_multiset_contains(short, x);
            let i = choose|i: int| 0 <= i < short.len() && short[i] == x;
            assert(rows[i] == x && rows[rows.len() - 1] == x);
        }
    } else {
        assert(rows.to_multiset().count(x) == 0);
    }
}

pub(crate) proof fn lemma_page_row_counts(page: Seq<MergedRow>, rows: Seq<MergedRow>, limit: int, i: int)
    requires
        is_page(page, rows.to_multiset(), limit),
        0 <= i < page.len(),
    ensures
        page.to_multiset().count(page[i]) >= 1,
        rows.contains(page[i]),
{
    broadcast use vstd::seq_lib::group_to_multiset_ensures;
    broadcast use vstd::multiset::group_multiset_axioms;

    assert(page.contains(page[i]));
    vstd::seq_lib::to_multiset_contains(page, page[i]);
    vstd::seq_lib::to_multiset_contains(rows, page[i]);
}

/// The head of a page is the page of the smaller size.
pub proof fn a_shorter_page_is_the_head(
    page: Seq<MergedRow>,
    rows: Seq<MergedRow>,
    limit: int,
    shorter: int,
)
    requires
        is_page(page, rows.to_multiset(), limit),
        0 <= shorter <= limit,
    ensures
        is_page(
            page.take(
                if page.len() < shorter {
                    page.len() as int
                } else {
                    shorter
                },
            ),
            rows.to_multiset(),
            shorter,
        ),
{
    broadcast use vstd::seq_lib::group_to_multiset_ensures;
    broadcast use vstd::multiset::group_multiset_axioms;

    let n = if page.len() < shorter {
        page.len() as int
    } else {
        shorter
    };
    let head = page.take(n);
    let tail = page.skip(n);
    assert(page =~= head + tail);
    vstd::seq_lib::lemma_multiset_commutative(head, tail);
    let all = rows.to_multiset();
    let rest = all.sub(page.to_multiset());
    let out = all.sub(head.to_multiset());
    assert forall|x: MergedRow, i: int| out.contains(x) && 0 <= i < head.len() implies !(
    #[trigger] x.newer(#[trigger] head[i])) by {
        assert(head[i] == page[i]);
        if rest.contains(x) {
            assert(!x.newer(page[i]));
        } else {
            assert(tail.to_multiset().count(x) > 0);
            vstd::seq_lib::to_multiset_contains(tail, x);
            let k = choose|k: int| 0 <= k < tail.len() && tail[k] == x;
            assert(page[n + k] == x);
        }
    }
}

/// The page size says how many rows are shown, not which rows there are.
pub proof fn the_page_size_is_no_part_of_the_view(
    s: Scope,
    w: ListWindow,
    v: ListWindow,
    notifications: Seq<(Notification, serde_json::Value)>,
    broadcasts: Seq<(Broadcast, serde_json::Value)>,
)
    requires
        v == (ListWindow { limit: v.limit, ..w }),
    ensures
        listed_rows(s, v, notifications, broadcasts) == listed_rows(
            s,
            w,
            notifications,
            broadcasts,
        ),
{
    let p = |n: (Notification, serde_json::Value)| lists_notification(s, w, n.0);
    let q = |b: (Broadcast, serde_json::Value)| lists_broadcast(s, w, b.0);
    let pv = |n: (Notification, serde_json::Value)| lists_notification(s, v, n.0);
    let qv = |b: (Broadcast, serde_json::Value)| lists_broadcast(s, v, b.0);
    assert(p =~= pv);
    assert(q =~= qv);
}

pub(crate) proof fn lemma_listed_instants_exist(
    s: Scope,
    w: ListWindow,
    notifications: Seq<(Notification, serde_json::Value)>,
    broadcasts: Seq<(Broadcast, serde_json::Value)>,
)
    requires
        instants_exist(notifications, broadcasts),
    ensures
        forall|i: int|
            0 <= i < listed_rows(s, w, notifications, broadcasts).len() ==> MIN_MICROS <= (
            #[trigger] listed_rows(s, w, notifications, broadcasts)[i]).occurred_at <= MAX_MICROS,
{
    let p = |n: (Notification, serde_json::Value)| lists_notification(s, w, n.0);
    let q = |b: (Broadcast, serde_json::Value)| lists_broadcast(s, w, b.0);
    let rows = listed_rows(s, w, notifications, broadcasts);
    let direct = notifications.filter(p);
    let wide = broadcasts.filter(q);
    assert forall|i: int| 0 <= i < rows.len() implies MIN_MICROS <= (
    #[trigger] rows[i]).occurred_at <= MAX_MICROS by {
        if i < direct.len() {
            assert(direct.contains(direct[i]));
            notifications.lemma_filter_contains_rev(p, direct[i]);
            let k = choose|k: int| 0 <= k < notifications.len() && notifications[k] == direct[i];
            assert(MIN_MICROS <= notifications[k].0.state.visible_at <= MAX_MICROS);
        } else {
            let j = i - direct.len();
            assert(wide.contains(wide[j]));
            broadcasts.lemma_filter_contains_rev(q, wide[j]);
            let k = choose|k: int| 0 <= k < broadcasts.len() && broadcasts[k] == wide[j];
            assert(MIN_MICROS <= broadcasts[k].0.state.created_at <= MAX_MICROS);
        }
    }
}

/// The window after a page lists what is left, all of it and nothing twice: no
/// row is lost or repeated between one page and the next.
pub proof fn the_next_page_continues(
    s: Scope,
    w: ListWindow,
    notifications: Seq<(Notification, serde_json::Value)>,
    broadcasts: Seq<(Broadcast, serde_json::Value)>,
    page: Seq<MergedRow>,
)
    requires
        is_page(page, listed_rows(s, w, notifications, broadcasts).to_multiset(), w.limit as int),
        page.len() > 0,
        keys_are_distinct(listed_rows(s, w, notifications, broadcasts)),
    ensures
        listed_rows(s, next_window(w, page.last()), notifications, broadcasts).to_multiset()
            == listed_rows(s, w, notifications, broadcasts).to_multiset().sub(page.to_multiset()),
        keys_are_distinct(listed_rows(s, next_window(w, page.last()), notifications, broadcasts)),
{
    broadcast use vstd::seq_lib::group_to_multiset_ensures;
    broadcast use vstd::multiset::group_multiset_axioms;

    let rows = listed_rows(s, w, notifications, broadcasts);
    let last = page.last();
    let v = next_window(w, last);
    let keep = |r: MergedRow| v.below(r.occurred_at, r.id);
    let p = |n: (Notification, serde_json::Value)| lists_notification(s, w, n.0);
    let q = |b: (Broadcast, serde_json::Value)| lists_broadcast(s, w, b.0);
    lemma_page_row_counts(page, rows, w.limit as int, page.len() - 1);
    let k = choose|k: int| 0 <= k < rows.len() && rows[k] == last;
    assert(w.below(last.occurred_at, last.id)) by {
        let d = notifications.filter(p).len();
        if k < d {
            notifications.lemma_filter_pred(p, k);
        } else {
            broadcasts.lemma_filter_pred(q, k - d);
        }
    }
    lemma_narrower_window(s, w, v, keep, notifications, broadcasts);
    lemma_filter_keeps_keys_distinct(rows, keep);
    let rest = rows.to_multiset().sub(page.to_multiset());
    let next = listed_rows(s, v, notifications, broadcasts).to_multiset();
    assert forall|x: MergedRow| #[trigger] next.count(x) == rest.count(x) by {
        lemma_filter_counts(rows, keep, x);
        lemma_distinct_keys_count_once(rows, x);
        if rows.to_multiset().count(x) > 0 {
            vstd::seq_lib::to_multiset_contains(rows, x);
            let i = choose|i: int| 0 <= i < rows.len() && rows[i] == x;
            if page.to_multiset().count(x) > 0 {
                vstd::seq_lib::to_multiset_contains(page, x);
                let a = choose|a: int| 0 <= a < page.len() && page[a] == x;
                assert(!keep(x)) by {
                    if a < page.len() - 1 {
                        assert(!page[page.len() - 1].newer(page[a]) ==> !last.newer(x));
                        assert(!last.newer(x));
                        if keep(x) {
                            // Older than the last row of its own page.
                            assert(last.newer(x));
                        }
                    }
                }
            } else {
                assert(rest.contains(x));
                assert(!x.newer(page[page.len() - 1]));
                if !keep(x) {
                    assert(x.occurred_at == last.occurred_at && x.id == last.id);
                    assert(rows[i].occurred_at == rows[k].occurred_at && rows[i].id == rows[k].id);
                    assert(i == k);
                    assert(false);
                }
            }
        }
    }
    assert(next =~= rest);
}

/// The last page, the one with no row beyond it, holds every row of its
/// window.
pub proof fn the_last_page_holds_the_rest(
    rows: Seq<MergedRow>,
    limit: int,
    page: Seq<MergedRow>,
)
    requires
        is_page(page, rows.to_multiset(), limit),
        rows.len() <= limit,
    ensures
        page.to_multiset() == rows.to_multiset(),
{
    broadcast use vstd::seq_lib::group_to_multiset_ensures;
    broadcast use vstd::multiset::group_multiset_axioms;

    let rest = rows.to_multiset().sub(page.to_multiset());
    assert(rest.len() == 0);
    assert forall|x: MergedRow| page.to_multiset().count(x) == rows.to_multiset().count(x) by {
        vstd::multiset::axiom_count_le_len(rest, x);
    }
    assert(page.to_multiset() =~= rows.to_multiset());
}

pub(crate) proof fn lemma_page_row_stands_once(page: Seq<MergedRow>, rows: Seq<MergedRow>, limit: int)
    requires
        is_page(page, rows.to_multiset(), limit),
        keys_are_distinct(rows),
    ensures
        forall|i: int, j: int|
            0 <= i < page.len() && 0 <= j < page.len() && (#[trigger] page[i]) == (
            #[trigger] page[j]) ==> i == j,
{
    broadcast use vstd::seq_lib::group_to_multiset_ensures;
    broadcast use vstd::multiset::group_multiset_axioms;

    assert forall|i: int, j: int|
        0 <= i < page.len() && 0 <= j < page.len() && (#[trigger] page[i]) == (
        #[trigger] page[j]) implies i == j by {
        if i != j {
            let (a, b) = if i < j { (i, j) } else { (j, i) };
            let x = page[a];
            lemma_distinct_keys_count_once(rows, x);
            let short = page.remove(b);
            vstd::seq_lib::to_multiset_remove(page, b);
            assert(short[a] == x);
            assert(short.contains(x));
            vstd::seq_lib::to_multiset_contains(short, x);
            assert(page.to_multiset().count(x) >= 2);
        }
    }
}

/// The page is determined: two pages of the same rows are the same page.
pub proof fn a_page_is_determined(
    rows: Seq<MergedRow>,
    limit: int,
    p: Seq<MergedRow>,
    q: Seq<MergedRow>,
)
    requires
        is_page(p, rows.to_multiset(), limit),
        is_page(q, rows.to_multiset(), limit),
        keys_are_distinct(rows),
    ensures
        p == q,
{
    lemma_page_row_stands_once(p, rows, limit);
    lemma_page_row_stands_once(q, rows, limit);
    lemma_pages_agree(rows, limit, p, q, p.len() as int);
    assert(p =~= q);
}

proof fn lemma_pages_agree(
    rows: Seq<MergedRow>,
    limit: int,
    p: Seq<MergedRow>,
    q: Seq<MergedRow>,
    n: int,
)
    requires
        is_page(p, rows.to_multiset(), limit),
        is_page(q, rows.to_multiset(), limit),
        keys_are_distinct(rows),
        forall|i: int, j: int|
            0 <= i < p.len() && 0 <= j < p.len() && (#[trigger] p[i]) == (#[trigger] p[j]) ==> i == j,
        forall|i: int, j: int|
            0 <= i < q.len() && 0 <= j < q.len() && (#[trigger] q[i]) == (#[trigger] q[j]) ==> i == j,
        0 <= n <= p.len(),
        p.len() == q.len(),
    ensures
        forall|i: int| 0 <= i < n ==> p[i] == q[i],
    decreases n,
{
    if n > 0 {
        lemma_pages_agree(rows, limit, p, q, n - 1);
        let i = n - 1;
        lemma_page_row_counts(p, rows, limit, i);
        lemma_page_row_counts(q, rows, limit, i);
        if p[i] != q[i] {
            let a = choose|a: int| 0 <= a < rows.len() && rows[a] == p[i];
            let b = choose|b: int| 0 <= b < rows.len() && rows[b] == q[i];
            assert(a != b);
            assert(p[i].newer(q[i]) || q[i].newer(p[i])) by {
                assert(rows[a].occurred_at != rows[b].occurred_at || rows[a].id != rows[b].id);
            }
            if p[i].newer(q[i]) {
                lemma_newer_row_is_on_the_page(rows, limit, q, p[i], i);
                let j = choose|j: int| 0 <= j < q.len() && q[j] == p[i];
                if j < i {
                    assert(p[j] == q[j]);
                    assert(p[j] == p[i]);
                } else if i < j {
                    assert(!q[j].newer(q[i]));
                }
            } else {
                lemma_newer_row_is_on_the_page(rows, limit, p, q[i], i);
                let j = choose|j: int| 0 <= j < p.len() && p[j] == q[i];
                if j < i {
                    assert(p[j] == q[j]);
                    assert(q[j] == q[i]);
                } else if i < j {
                    assert(!p[j].newer(p[i]));
                }
            }
            assert(false);
        }
    }
}

proof fn lemma_newer_row_is_on_the_page(
    rows: Seq<MergedRow>,
    limit: int,
    page: Seq<MergedRow>,
    x: MergedRow,
    i: int,
)
    requires
        is_page(page, rows.to_multiset(), limit),
        rows.contains(x),
        0 <= i < page.len(),
        x.newer(page[i]),
    ensures
        page.contains(x),
{
    broadcast use vstd::seq_lib::group_to_multiset_ensures;
    broadcast use vstd::multiset::group_multiset_axioms;

    vstd::seq_lib::to_multiset_contains(rows, x);
    vstd::seq_lib::to_multiset_contains(page, x);
    let rest = rows.to_multiset().sub(page.to_multiset());
    if !page.contains(x) {
        assert(rest.contains(x));
        assert(!x.newer(page[i]));
    }
}

/// Every visible, unmuted item in the window is in the default view or in the
/// archived view, and never in both.
pub proof fn an_item_is_in_one_view(s: Scope, w: ListWindow, n: Notification, b: Broadcast)
    ensures
        ({
            let default = ListWindow { filter: InboxFilter::Default, ..w };
            let archived = ListWindow { filter: InboxFilter::Archived, ..w };
            &&& lists_notification(s, default, n) || lists_notification(s, archived, n) <==> (
            s.shows_notification(n) && !s.mutes(n.category@) && w.below(n.state.visible_at, n.id))
            &&& !(lists_notification(s, default, n) && lists_notification(s, archived, n))
            &&& lists_broadcast(s, default, b) || lists_broadcast(s, archived, b) <==> (
            s.shows_broadcast(b.state) && !s.mutes(b.category@) && w.below(
                b.state.created_at,
                b.id,
            ))
            &&& !(lists_broadcast(s, default, b) && lists_broadcast(s, archived, b))
        }),
{
}

} // verus!
