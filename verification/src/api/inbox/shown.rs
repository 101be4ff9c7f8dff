//! What a page and its items show of the rows behind them.

use vstd::prelude::*;
use super::cursor::{cursor_gives_back_the_keyset, cursor_value};
use super::items::InboxPage;
use super::list::{
    broadcast_row, is_page, lists_broadcast, lists_notification, notification_row, ListWindow,
    MergedRow,
};
use super::pages::{
    instants_exist, lemma_listed_instants_exist, lemma_page_row_counts, listed_rows,
};
use super::rows::{is_muted, Broadcast, Notification, Scope};
use crate::ids::typeid_text;
use crate::outside::{rfc3339_micros, MAX_MICROS, MIN_MICROS};
use crate::tally::tally;

verus! {

/// A notification is listed exactly when it is visible, in a category that is
/// not muted, of the state that the view is for, and older than the cursor.
pub proof fn what_lists_a_notification(s: Scope, w: ListWindow, n: Notification)
    ensures
        lists_notification(s, w, n) <==> n.state.visible_at <= s.now && !is_muted(
            s.preferences@,
            n.category@,
        ) && (w.filter is Archived <==> n.state.is_archived(s.counters)) && (w.filter is Unread
            ==> !n.state.is_read(s.counters)) && (n.state.visible_at < w.cursor_ts || (
        n.state.visible_at == w.cursor_ts && n.id < w.cursor_id)),
{
}

/// A broadcast is listed exactly when it is no older than the subscriber, in a
/// category that is not muted, of the state that the view is for, and older
/// than the cursor.
pub proof fn what_lists_a_broadcast(s: Scope, w: ListWindow, b: Broadcast)
    ensures
        lists_broadcast(s, w, b) <==> b.state.created_at >= s.subscriber_created_at && !is_muted(
            s.preferences@,
            b.category@,
        ) && (w.filter is Archived <==> b.state.is_archived(s.counters)) && (w.filter is Unread
            ==> !b.state.is_read(s.counters)) && (b.state.created_at < w.cursor_ts || (
        b.state.created_at == w.cursor_ts && b.id < w.cursor_id)),
{
}

/// Every listed row is that of a listed notification or broadcast, with its
/// id, category, payload and instant and its flags as they are under the
/// counters.
pub proof fn a_listed_row_is_that_of_an_item(
    s: Scope,
    w: ListWindow,
    notifications: Seq<(Notification, serde_json::Value)>,
    broadcasts: Seq<(Broadcast, serde_json::Value)>,
    row: MergedRow,
)
    requires
        listed_rows(s, w, notifications, broadcasts).contains(row),
    ensures
        ({
            ||| exists|j: int|
                0 <= j < notifications.len() && lists_notification(
                    s,
                    w,
                    (#[trigger] notifications[j]).0,
                ) && row.source@ == "notification"@ && row.id == notifications[j].0.id
                    && row.category == notifications[j].0.category && row.payload
                    == notifications[j].1 && row.occurred_at == notifications[j].0.state.visible_at
                    && row.read == notifications[j].0.state.is_read(s.counters) && row.archived
                    == notifications[j].0.state.is_archived(s.counters)
            ||| exists|j: int|
                0 <= j < broadcasts.len() && lists_broadcast(s, w, (#[trigger] broadcasts[j]).0)
                    && row.source@ == "broadcast"@ && row.id == broadcasts[j].0.id && row.category
                    == broadcasts[j].0.category && row.payload == broadcasts[j].1
                    && row.occurred_at == broadcasts[j].0.state.created_at && row.read
                    == broadcasts[j].0.state.is_read(s.counters) && row.archived
                    == broadcasts[j].0.state.is_archived(s.counters)
        }),
{
    let p = |n: (Notification, serde_json::Value)| lists_notification(s, w, n.0);
    let q = |b: (Broadcast, serde_json::Value)| lists_broadcast(s, w, b.0);
    let rows = listed_rows(s, w, notifications, broadcasts);
    let direct = notifications.filter(p);
    let wide = broadcasts.filter(q);
    let k = choose|k: int| 0 <= k < rows.len() && rows[k] == row;
    if k < direct.len() {
        notifications.lemma_filter_pred(p, k);
        assert(direct.contains(direct[k]));
        notifications.lemma_filter_contains_rev(p, direct[k]);
        let j = choose|j: int| 0 <= j < notifications.len() && notifications[j] == direct[k];
        assert(row == notification_row(s, notifications[j]));
        assert(lists_notification(s, w, notifications[j].0));
    } else {
        let i = k - direct.len();
        broadcasts.lemma_filter_pred(q, i);
        assert(wide.contains(wide[i]));
        broadcasts.lemma_filter_contains_rev(q, wide[i]);
        let j = choose|j: int| 0 <= j < broadcasts.len() && broadcasts[j] == wide[i];
        assert(row == broadcast_row(s, broadcasts[j]));
        assert(lists_broadcast(s, w, broadcasts[j].0));
    }
}

/// Every listed notification and broadcast has its row.
pub proof fn every_listed_item_has_its_row(
    s: Scope,
    w: ListWindow,
    notifications: Seq<(Notification, serde_json::Value)>,
    broadcasts: Seq<(Broadcast, serde_json::Value)>,
    j: int,
)
    ensures
        0 <= j < notifications.len() && lists_notification(s, w, notifications[j].0) ==> exists|
            k: int,
        |
            0 <= k < listed_rows(s, w, notifications, broadcasts).len() && ({
                let row = #[trigger] listed_rows(s, w, notifications, broadcasts)[k];
                &&& row.source@ == "notification"@
                &&& row.id == notifications[j].0.id
                &&& row.occurred_at == notifications[j].0.state.visible_at
                &&& row.read == notifications[j].0.state.is_read(s.counters)
                &&& row.archived == notifications[j].0.state.is_archived(s.counters)
            }),
        0 <= j < broadcasts.len() && lists_broadcast(s, w, broadcasts[j].0) ==> exists|k: int|
            0 <= k < listed_rows(s, w, notifications, broadcasts).len() && ({
                let row = #[trigger] listed_rows(s, w, notifications, broadcasts)[k];
                &&& row.source@ == "broadcast"@
                &&& row.id == broadcasts[j].0.id
                &&& row.occurred_at == broadcasts[j].0.state.created_at
                &&& row.read == broadcasts[j].0.state.is_read(s.counters)
                &&& row.archived == broadcasts[j].0.state.is_archived(s.counters)
            }),
{
    let p = |n: (Notification, serde_json::Value)| lists_notification(s, w, n.0);
    let q = |b: (Broadcast, serde_json::Value)| lists_broadcast(s, w, b.0);
    let rows = listed_rows(s, w, notifications, broadcasts);
    let direct = notifications.filter(p);
    let wide = broadcasts.filter(q);
    if 0 <= j < notifications.len() && lists_notification(s, w, notifications[j].0) {
        notifications.lemma_filter_contains(p, j);
        let k = choose|k: int| 0 <= k < direct.len() && direct[k] == notifications[j];
        assert(rows[k] == notification_row(s, notifications[j]));
    }
    if 0 <= j < broadcasts.len() && lists_broadcast(s, w, broadcasts[j].0) {
        broadcasts.lemma_filter_contains(q, j);
        let k = choose|k: int| 0 <= k < wide.len() && wide[k] == broadcasts[j];
        assert(rows[direct.len() + k] == broadcast_row(s, broadcasts[j]));
    }
}

proof fn lemma_filter_is_tallied<A>(s: Seq<A>, p: spec_fn(A) -> bool)
    ensures
        s.filter(p).len() == tally(s, p),
    decreases s.len(),
{
    reveal(Seq::filter);
    if s.len() > 0 {
        lemma_filter_is_tallied(s.drop_last(), p);
    }
}

/// There is one row for each listed item, no more and no fewer.
pub proof fn there_is_one_row_for_each_listed_item(
    s: Scope,
    w: ListWindow,
    notifications: Seq<(Notification, serde_json::Value)>,
    broadcasts: Seq<(Broadcast, serde_json::Value)>,
)
    ensures
        listed_rows(s, w, notifications, broadcasts).len() == tally(
            notifications,
            |n: (Notification, serde_json::Value)| lists_notification(s, w, n.0),
        ) + tally(broadcasts, |b: (Broadcast, serde_json::Value)| lists_broadcast(s, w, b.0)),
{
    lemma_filter_is_tallied(
        notifications,
        |n: (Notification, serde_json::Value)| lists_notification(s, w, n.0),
    );
    lemma_filter_is_tallied(
        broadcasts,
        |b: (Broadcast, serde_json::Value)| lists_broadcast(s, w, b.0),
    );
}

/// A page stands in descending order of instant and, at one instant, of id. It
/// holds rows that there are, as many as fit, and a row that it leaves out is
/// no newer than any row on it.
pub proof fn a_page_holds_the_newest_rows(
    page: Seq<MergedRow>,
    rows: Seq<MergedRow>,
    limit: int,
    i: int,
    j: int,
    x: MergedRow,
)
    requires
        is_page(page, rows.to_multiset(), limit),
        0 <= i < page.len(),
    ensures
        i < j < page.len() ==> page[i].occurred_at > page[j].occurred_at || (page[i].occurred_at
            == page[j].occurred_at && page[i].id >= page[j].id),
        rows.contains(page[i]),
        rows.len() <= limit ==> page.len() == rows.len(),
        rows.len() > limit ==> page.len() == limit,
        rows.contains(x) && !page.contains(x) ==> page.len() == limit && (page[i].occurred_at
            > x.occurred_at || (page[i].occurred_at == x.occurred_at && page[i].id >= x.id)),
{
    broadcast use vstd::seq_lib::group_to_multiset_ensures;
    broadcast use vstd::multiset::group_multiset_axioms;

    lemma_page_row_counts(page, rows, limit, i);
    if i < j < page.len() {
        assert(!page[j].newer(page[i]));
    }
    if rows.contains(x) && !page.contains(x) {
        let rest = rows.to_multiset().sub(page.to_multiset());
        vstd::seq_lib::to_multiset_contains(rows, x);
        vstd::seq_lib::to_multiset_contains(page, x);
        assert(rest.contains(x));
        assert(!x.newer(page[i]));
        vstd::multiset::axiom_count_le_len(rest, x);
    }
}

/// Every item of a page that answers a window shows a notification or a
/// broadcast that the window lists: its typed id, category, payload and
/// instant, and the flags of that row's own state under the counters.
pub proof fn every_item_shows_its_row(
    page: InboxPage,
    s: Scope,
    w: ListWindow,
    notifications: Seq<(Notification, serde_json::Value)>,
    broadcasts: Seq<(Broadcast, serde_json::Value)>,
    i: int,
)
    requires
        page.answers(s, w, notifications, broadcasts),
        0 <= i < page.items@.len(),
    ensures
        ({
            let item = page.items@[i];
            ||| exists|j: int|
                0 <= j < notifications.len() && lists_notification(
                    s,
                    w,
                    (#[trigger] notifications[j]).0,
                ) && item.id@ == typeid_text("notif"@, notifications[j].0.id) && item.source@
                    == "notification"@ && item.category@ == notifications[j].0.category@
                    && item.payload == notifications[j].1 && item.occurred_at@ == rfc3339_micros(
                    notifications[j].0.state.visible_at,
                ) && item.read == notifications[j].0.state.is_read(s.counters) && item.archived
                    == notifications[j].0.state.is_archived(s.counters)
            ||| exists|j: int|
                0 <= j < broadcasts.len() && lists_broadcast(s, w, (#[trigger] broadcasts[j]).0)
                    && item.id@ == typeid_text("bcast"@, broadcasts[j].0.id) && item.source@
                    == "broadcast"@ && item.category@ == broadcasts[j].0.category@ && item.payload
                    == broadcasts[j].1 && item.occurred_at@ == rfc3339_micros(
                    broadcasts[j].0.state.created_at,
                ) && item.read == broadcasts[j].0.state.is_read(s.counters) && item.archived
                    == broadcasts[j].0.state.is_archived(s.counters)
        }),
{
    reveal_strlit("notification");
    reveal_strlit("broadcast");
    assert("notification"@ != "broadcast"@) by {
        assert("notification"@.len() != "broadcast"@.len());
    }
    let rows = listed_rows(s, w, notifications, broadcasts);
    let shown = choose|shown: Seq<MergedRow>|
        #[trigger] is_page(shown, rows.to_multiset(), w.limit as int) && page.shows(shown) && (
        page.next_cursor is Some ==> page.leads_on_from(shown.last()));
    lemma_page_row_counts(shown, rows, w.limit as int, i);
    assert(page.items@[i].shows(shown[i]));
    a_listed_row_is_that_of_an_item(s, w, notifications, broadcasts, shown[i]);
}

/// Every item of the archived view says that it is archived, no item of the
/// default or the unread view does, and no item of the unread view says that
/// it is read.
pub proof fn the_flags_of_an_item_agree_with_the_view(
    page: InboxPage,
    s: Scope,
    w: ListWindow,
    notifications: Seq<(Notification, serde_json::Value)>,
    broadcasts: Seq<(Broadcast, serde_json::Value)>,
    i: int,
)
    requires
        page.answers(s, w, notifications, broadcasts),
        0 <= i < page.items@.len(),
    ensures
        w.filter.admits(page.items@[i].read, page.items@[i].archived),
        page.items@[i].archived <==> w.filter is Archived,
        w.filter is Unread ==> !page.items@[i].read,
{
    every_item_shows_its_row(page, s, w, notifications, broadcasts, i);
}

/// The cursor of a page stands for the last row that the page shows, the
/// oldest of them: its instant and its id.
pub proof fn the_cursor_stands_for_the_last_row(
    page: InboxPage,
    s: Scope,
    w: ListWindow,
    notifications: Seq<(Notification, serde_json::Value)>,
    broadcasts: Seq<(Broadcast, serde_json::Value)>,
)
    requires
        page.answers(s, w, notifications, broadcasts),
        page.next_cursor is Some,
        w.limit >= 1,
        instants_exist(notifications, broadcasts),
    ensures
        exists|last: MergedRow| #[trigger]
            listed_rows(s, w, notifications, broadcasts).contains(last) && page.items@.last().id@
                == typeid_text(
                if last.source@ == "notification"@ {
                    "notif"@
                } else {
                    "bcast"@
                },
                last.id,
            ) && page.items@.last().occurred_at@ == rfc3339_micros(last.occurred_at)
                && cursor_value(page.next_cursor->0@) == Some((last.occurred_at, last.id)),
{
    broadcast use vstd::seq_lib::group_to_multiset_ensures;

    let rows = listed_rows(s, w, notifications, broadcasts);
    let shown = choose|shown: Seq<MergedRow>|
        #[trigger] is_page(shown, rows.to_multiset(), w.limit as int) && page.shows(shown) && (
        page.next_cursor is Some ==> page.leads_on_from(shown.last()));
    let last = shown.last();
    lemma_page_row_counts(shown, rows, w.limit as int, shown.len() - 1);
    lemma_listed_instants_exist(s, w, notifications, broadcasts);
    let k = choose|k: int| 0 <= k < rows.len() && rows[k] == last;
    assert(MIN_MICROS <= rows[k].occurred_at <= MAX_MICROS);
    assert(page.items@[shown.len() - 1].shows(shown[shown.len() - 1]));
    cursor_gives_back_the_keyset(last.occurred_at, last.id, page.next_cursor->0@);
    assert(rows.contains(last));
}

/// A page that answers a window has as many items as the window lists, up to
/// the page size, and leads on exactly when there are more.
pub proof fn a_page_is_as_long_as_it_can_be(
    page: InboxPage,
    s: Scope,
    w: ListWindow,
    notifications: Seq<(Notification, serde_json::Value)>,
    broadcasts: Seq<(Broadcast, serde_json::Value)>,
)
    requires
        page.answers(s, w, notifications, broadcasts),
        w.limit >= 1,
    ensures
        ({
            let listed = tally(
                notifications,
                |n: (Notification, serde_json::Value)| lists_notification(s, w, n.0),
            ) + tally(broadcasts, |b: (Broadcast, serde_json::Value)| lists_broadcast(s, w, b.0));
            &&& listed <= w.limit ==> page.items@.len() == listed && page.next_cursor is None
            &&& listed > w.limit ==> page.items@.len() == w.limit && page.next_cursor is Some
        }),
{
    broadcast use vstd::seq_lib::group_to_multiset_ensures;

    let rows = listed_rows(s, w, notifications, broadcasts);
    there_is_one_row_for_each_listed_item(s, w, notifications, broadcasts);
    let shown = choose|shown: Seq<MergedRow>|
        #[trigger] is_page(shown, rows.to_multiset(), w.limit as int) && page.shows(shown) && (
        page.next_cursor is Some ==> page.leads_on_from(shown.last()));
    assert(is_page(shown, rows.to_multiset(), w.limit as int));
}

} // verus!
