//! How the pages of the three views stand to each other.

use vstd::prelude::*;
use super::list::{
    broadcast_row, is_page, lists_broadcast, lists_notification, notification_row, InboxFilter,
    ListWindow, MergedRow,
};
use super::pages::{
    a_page_is_determined, flags_agree_with_the_view, keys_are_distinct, lemma_filter_counts,
    lemma_filter_keeps_keys_distinct, lemma_filter_keeps_the_order, lemma_narrower,
    lemma_page_row_counts, listed_rows, the_last_page_holds_the_rest,
    unread_view_is_the_unread_part,
};
use super::rows::{Broadcast, Notification, Scope};

verus! {

/// The same window in another view.
pub open spec fn in_view(w: ListWindow, filter: InboxFilter) -> ListWindow {
    ListWindow { filter, ..w }
}

/// Every row of a page carries the flags of the view: nothing archived is in
/// the default or the unread view, nothing read in the unread view, and all in
/// the archived view is archived.
pub proof fn flags_of_a_page_agree_with_the_view(
    s: Scope,
    w: ListWindow,
    notifications: Seq<(Notification, serde_json::Value)>,
    broadcasts: Seq<(Broadcast, serde_json::Value)>,
    page: Seq<MergedRow>,
)
    requires
        is_page(page, listed_rows(s, w, notifications, broadcasts).to_multiset(), w.limit as int),
    ensures
        forall|i: int|
            0 <= i < page.len() ==> w.filter.admits(
                (#[trigger] page[i]).read,
                page[i].archived,
            ),
{
    let rows = listed_rows(s, w, notifications, broadcasts);
    flags_agree_with_the_view(s, w, notifications, broadcasts);
    assert forall|i: int| 0 <= i < page.len() implies w.filter.admits(
        (#[trigger] page[i]).read,
        page[i].archived,
    ) by {
        lemma_page_row_counts(page, rows, w.limit as int, i);
        let k = choose|k: int| 0 <= k < rows.len() && rows[k] == page[i];
        assert(w.filter.admits(rows[k].read, rows[k].archived));
    }
}

/// The whole unread view, newest first, is the unread part of the whole
/// default view, in the same order.
pub proof fn the_unread_page_is_the_unread_part(
    s: Scope,
    w: ListWindow,
    notifications: Seq<(Notification, serde_json::Value)>,
    broadcasts: Seq<(Broadcast, serde_json::Value)>,
    default: Seq<MergedRow>,
    unread: Seq<MergedRow>,
)
    requires
        w.filter is Default,
        is_page(
            default,
            listed_rows(s, w, notifications, broadcasts).to_multiset(),
            w.limit as int,
        ),
        is_page(
            unread,
            listed_rows(
                s,
                in_view(w, InboxFilter::Unread),
                notifications,
                broadcasts,
            ).to_multiset(),
            w.limit as int,
        ),
        listed_rows(s, w, notifications, broadcasts).len() <= w.limit,
        keys_are_distinct(listed_rows(s, w, notifications, broadcasts)),
    ensures
        unread == default.filter(|r: MergedRow| !r.read),
{
    broadcast use vstd::seq_lib::group_to_multiset_ensures;
    broadcast use vstd::multiset::group_multiset_axioms;

    let keep = |r: MergedRow| !r.read;
    let rows = listed_rows(s, w, notifications, broadcasts);
    let fewer = listed_rows(s, in_view(w, InboxFilter::Unread), notifications, broadcasts);
    let part = default.filter(keep);
    unread_view_is_the_unread_part(s, w, notifications, broadcasts);
    the_last_page_holds_the_rest(rows, w.limit as int, default);
    lemma_filter_keeps_the_order(default, keep);
    lemma_filter_keeps_keys_distinct(rows, keep);
    assert(part.to_multiset() =~= fewer.to_multiset()) by {
        assert forall|x: MergedRow| #[trigger] part.to_multiset().count(x)
            == fewer.to_multiset().count(x) by {
            lemma_filter_counts(default, keep, x);
            lemma_filter_counts(rows, keep, x);
        }
    }
    rows.lemma_filter_len(keep);
    assert(is_page(part, fewer.to_multiset(), w.limit as int));
    a_page_is_determined(fewer, w.limit as int, unread, part);
}

/// Every visible, unmuted item of the window as a row, whatever its state.
pub open spec fn visible_rows(
    s: Scope,
    w: ListWindow,
    notifications: Seq<(Notification, serde_json::Value)>,
    broadcasts: Seq<(Broadcast, serde_json::Value)>,
) -> Seq<MergedRow> {
    notifications.filter(
        |n: (Notification, serde_json::Value)|
            s.shows_notification(n.0) && !s.mutes(n.0.category@) && w.below(
                n.0.state.visible_at,
                n.0.id,
            ),
    ).map_values(|n: (Notification, serde_json::Value)| notification_row(s, n))
        + broadcasts.filter(
        |b: (Broadcast, serde_json::Value)|
            s.shows_broadcast(b.0.state) && !s.mutes(b.0.category@) && w.below(
                b.0.state.created_at,
                b.0.id,
            ),
    ).map_values(|b: (Broadcast, serde_json::Value)| broadcast_row(s, b))
}

/// A view lists the visible rows that it admits.
proof fn lemma_view_of_the_visible(
    s: Scope,
    w: ListWindow,
    notifications: Seq<(Notification, serde_json::Value)>,
    broadcasts: Seq<(Broadcast, serde_json::Value)>,
)
    ensures
        listed_rows(s, w, notifications, broadcasts) == visible_rows(
            s,
            w,
            notifications,
            broadcasts,
        ).filter(|r: MergedRow| w.filter.admits(r.read, r.archived)),
{
    let keep = |r: MergedRow| w.filter.admits(r.read, r.archived);
    let p = |n: (Notification, serde_json::Value)|
        s.shows_notification(n.0) && !s.mutes(n.0.category@) && w.below(
            n.0.state.visible_at,
            n.0.id,
        );
    let q = |b: (Broadcast, serde_json::Value)|
        s.shows_broadcast(b.0.state) && !s.mutes(b.0.category@) && w.below(
            b.0.state.created_at,
            b.0.id,
        );
    let direct = |n: (Notification, serde_json::Value)| notification_row(s, n);
    let wide = |b: (Broadcast, serde_json::Value)| broadcast_row(s, b);
    lemma_narrower(
        notifications,
        direct,
        p,
        |n: (Notification, serde_json::Value)| lists_notification(s, w, n.0),
        keep,
    );
    lemma_narrower(
        broadcasts,
        wide,
        q,
        |b: (Broadcast, serde_json::Value)| lists_broadcast(s, w, b.0),
        keep,
    );
    Seq::filter_distributes_over_add(
        notifications.filter(p).map_values(direct),
        broadcasts.filter(q).map_values(wide),
        keep,
    );
}

/// The whole default view and the whole archived view share no row, and
/// together they hold every visible, unmuted item.
pub proof fn default_and_archived_share_out_the_inbox(
    s: Scope,
    w: ListWindow,
    notifications: Seq<(Notification, serde_json::Value)>,
    broadcasts: Seq<(Broadcast, serde_json::Value)>,
    default: Seq<MergedRow>,
    archived: Seq<MergedRow>,
)
    requires
        is_page(
            default,
            listed_rows(
                s,
                in_view(w, InboxFilter::Default),
                notifications,
                broadcasts,
            ).to_multiset(),
            w.limit as int,
        ),
        is_page(
            archived,
            listed_rows(
                s,
                in_view(w, InboxFilter::Archived),
                notifications,
                broadcasts,
            ).to_multiset(),
            w.limit as int,
        ),
        visible_rows(s, w, notifications, broadcasts).len() <= w.limit,
    ensures
        forall|x: MergedRow| !(default.contains(x) && archived.contains(x)),
        default.to_multiset().add(archived.to_multiset()) == visible_rows(
            s,
            w,
            notifications,
            broadcasts,
        ).to_multiset(),
{
    broadcast use vstd::seq_lib::group_to_multiset_ensures;
    broadcast use vstd::multiset::group_multiset_axioms;

    let d = in_view(w, InboxFilter::Default);
    let a = in_view(w, InboxFilter::Archived);
    let all = visible_rows(s, w, notifications, broadcasts);
    let in_d = |r: MergedRow| d.filter.admits(r.read, r.archived);
    let in_a = |r: MergedRow| a.filter.admits(r.read, r.archived);
    lemma_visible_in_every_view(s, w, d, notifications, broadcasts);
    lemma_visible_in_every_view(s, w, a, notifications, broadcasts);
    lemma_view_of_the_visible(s, d, notifications, broadcasts);
    lemma_view_of_the_visible(s, a, notifications, broadcasts);
    all.lemma_filter_len(in_d);
    all.lemma_filter_len(in_a);
    let listed_d = listed_rows(s, d, notifications, broadcasts);
    let listed_a = listed_rows(s, a, notifications, broadcasts);
    the_last_page_holds_the_rest(listed_d, w.limit as int, default);
    the_last_page_holds_the_rest(listed_a, w.limit as int, archived);
    flags_of_a_page_agree_with_the_view(s, d, notifications, broadcasts, default);
    flags_of_a_page_agree_with_the_view(s, a, notifications, broadcasts, archived);
    assert forall|x: MergedRow| !(default.contains(x) && archived.contains(x)) by {
        if default.contains(x) && archived.contains(x) {
            let i = choose|i: int| 0 <= i < default.len() && default[i] == x;
            let j = choose|j: int| 0 <= j < archived.len() && archived[j] == x;
            assert(d.filter.admits(default[i].read, default[i].archived));
            assert(a.filter.admits(archived[j].read, archived[j].archived));
        }
    }
    assert forall|x: MergedRow| #[trigger] default.to_multiset().add(
        archived.to_multiset(),
    ).count(x) == all.to_multiset().count(x) by {
        lemma_filter_counts(all, in_d, x);
        lemma_filter_counts(all, in_a, x);
    }
    assert(default.to_multiset().add(archived.to_multiset()) =~= all.to_multiset());
}

/// What is visible does not depend on the view.
proof fn lemma_visible_in_every_view(
    s: Scope,
    w: ListWindow,
    v: ListWindow,
    notifications: Seq<(Notification, serde_json::Value)>,
    broadcasts: Seq<(Broadcast, serde_json::Value)>,
)
    requires
        v == in_view(w, v.filter),
    ensures
        visible_rows(s, v, notifications, broadcasts) == visible_rows(
            s,
            w,
            notifications,
            broadcasts,
        ),
{
    let p = |n: (Notification, serde_json::Value)|
        s.shows_notification(n.0) && !s.mutes(n.0.category@) && w.below(
            n.0.state.visible_at,
            n.0.id,
        );
    let q = |b: (Broadcast, serde_json::Value)|
        s.shows_broadcast(b.0.state) && !s.mutes(b.0.category@) && w.below(
            b.0.state.created_at,
            b.0.id,
        );
    let pv = |n: (Notification, serde_json::Value)|
        s.shows_notification(n.0) && !s.mutes(n.0.category@) && v.below(
            n.0.state.visible_at,
            n.0.id,
        );
    let qv = |b: (Broadcast, serde_json::Value)|
        s.shows_broadcast(b.0.state) && !s.mutes(b.0.category@) && v.below(
            b.0.state.created_at,
            b.0.id,
        );
    assert(p =~= pv);
    assert(q =~= qv);
}

} // verus!
