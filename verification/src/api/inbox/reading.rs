//! How far the rows of a source have to be read: for a page, where they come
//! newest first, batch after batch, and for the counts.

use vstd::prelude::*;
use vstd::multiset::Multiset;
use super::counts::{
    category_above, category_below, category_broadcast_above, category_broadcast_below,
    filter_total, unread_above, unread_below, unread_total, unseen_broadcast, unseen_total,
};
use super::items::InboxPage;
use super::list::{
    broadcast_arm, broadcast_is_listed, broadcast_row, direct_arm, is_page, lemma_same_size_contained,
    lists_broadcast, lists_notification, notification_is_listed, notification_row, ListWindow,
    MergedRow,
};
use super::pages::listed_rows;
use super::rows::{Broadcast, Notification, Scope};
use crate::tally::lemma_tally_filter;

verus! {

/// Whether the notifications read so far fill the page and show that there is
/// more.
pub fn direct_is_enough(
    scope: &Scope,
    window: &ListWindow,
    notifications: &Vec<(Notification, serde_json::Value)>,
) -> (r: bool)
    ensures
        r == (direct_arm(*scope, *window, notifications@).len() > window.limit),
{
    let mut listed: usize = 0;
    let mut i: usize = 0;
    proof {
        reveal(Seq::filter);
        assert(direct_arm(*scope, *window, notifications@.take(0)).len() == 0);
    }
    while i < notifications.len()
        invariant
            listed <= i <= notifications.len(),
            listed == direct_arm(*scope, *window, notifications@.take(i as int)).len(),
        decreases notifications.len() - i,
    {
        proof {
            reveal(Seq::filter);
            assert(notifications@.take(i + 1).drop_last() =~= notifications@.take(i as int));
        }
        if notification_is_listed(scope, window, &notifications[i].0) {
            listed = listed + 1;
        }
        i = i + 1;
    }
    proof {
        assert(notifications@.take(i as int) =~= notifications@);
    }
    listed as i128 > window.limit as i128
}

/// Whether the broadcasts read so far fill the page and show that there is
/// more.
pub fn broadcasts_are_enough(
    scope: &Scope,
    window: &ListWindow,
    broadcasts: &Vec<(Broadcast, serde_json::Value)>,
) -> (r: bool)
    ensures
        r == (broadcast_arm(*scope, *window, broadcasts@).len() > window.limit),
{
    let mut listed: usize = 0;
    let mut i: usize = 0;
    proof {
        reveal(Seq::filter);
        assert(broadcast_arm(*scope, *window, broadcasts@.take(0)).len() == 0);
    }
    while i < broadcasts.len()
        invariant
            listed <= i <= broadcasts.len(),
            listed == broadcast_arm(*scope, *window, broadcasts@.take(i as int)).len(),
        decreases broadcasts.len() - i,
    {
        proof {
            reveal(Seq::filter);
            assert(broadcasts@.take(i + 1).drop_last() =~= broadcasts@.take(i as int));
        }
        if broadcast_is_listed(scope, window, &broadcasts[i].0) {
            listed = listed + 1;
        }
        i = i + 1;
    }
    proof {
        assert(broadcasts@.take(i as int) =~= broadcasts@);
    }
    listed as i128 > window.limit as i128
}

/// No row of `far` is newer than a row of `near`.
pub open spec fn older(far: Seq<MergedRow>, near: Seq<MergedRow>) -> bool {
    forall|i: int, j: int|
        0 <= i < far.len() && 0 <= j < near.len() ==> !(#[trigger] far[i]).newer(#[trigger] near[j])
}

/// Rows that are older than enough rows to fill the page are not on it.
proof fn lemma_older_rows_stay_off(
    page: Seq<MergedRow>,
    near: Seq<MergedRow>,
    far: Seq<MergedRow>,
    others: Multiset<MergedRow>,
    limit: int,
)
    requires
        far.len() == 0 || near.len() >= limit,
        older(far, near),
        is_page(page, near.to_multiset().add(others), limit),
        limit >= 0,
    ensures
        is_page(page, near.to_multiset().add(far.to_multiset()).add(others), limit),
{
    broadcast use vstd::seq_lib::group_to_multiset_ensures;
    broadcast use vstd::multiset::group_multiset_axioms;

    let before = near.to_multiset().add(others);
    let after = near.to_multiset().add(far.to_multiset()).add(others);
    if far.len() == 0 {
        assert(far.to_multiset() =~= Multiset::<MergedRow>::empty());
        assert(after =~= before);
    } else {
        let dropped = before.sub(page.to_multiset());
        let out = after.sub(page.to_multiset());
        assert forall|x: MergedRow, i: int| out.contains(x) && 0 <= i < page.len() implies !(
        #[trigger] x.newer(#[trigger] page[i])) by {
            assert(out.count(x) == dropped.count(x) + far.to_multiset().count(x));
            if !dropped.contains(x) {
                vstd::seq_lib::to_multiset_contains(far, x);
                let f = choose|f: int| 0 <= f < far.len() && far[f] == x;
                if forall|y: MergedRow|
                    #[trigger] near.to_multiset().count(y) <= page.to_multiset().count(y) {
                    lemma_contained_len(near.to_multiset(), page.to_multiset());
                    lemma_same_size_contained(near.to_multiset(), page.to_multiset());
                    assert(page.contains(page[i]));
                    vstd::seq_lib::to_multiset_contains(page, page[i]);
                    vstd::seq_lib::to_multiset_contains(near, page[i]);
                    let k = choose|k: int| 0 <= k < near.len() && near[k] == page[i];
                    assert(!far[f].newer(near[k]));
                } else {
                    let y = choose|y: MergedRow|
                        #[trigger] near.to_multiset().count(y) > page.to_multiset().count(y);
                    assert(dropped.contains(y));
                    assert(!y.newer(page[i]));
                    vstd::seq_lib::to_multiset_contains(near, y);
                    let k = choose|k: int| 0 <= k < near.len() && near[k] == y;
                    assert(!far[f].newer(near[k]));
                }
            }
        }
    }
}

proof fn lemma_contained_len(a: Multiset<MergedRow>, b: Multiset<MergedRow>)
    requires
        forall|x: MergedRow| #[trigger] a.count(x) <= b.count(x),
    ensures
        a.len() <= b.len(),
{
    broadcast use vstd::multiset::group_multiset_axioms;

    assert(a.subset_of(b));
    let rest = b.sub(a);
    assert(b =~= a.add(rest));
}

/// Reading on changes no answer: what is answered from the newest rows of each
/// source is what all of the rows are answered, once each source has been read
/// to its end or as far as it is enough.
pub proof fn reading_on_changes_no_answer(
    s: Scope,
    w: ListWindow,
    notifications: Seq<(Notification, serde_json::Value)>,
    older_notifications: Seq<(Notification, serde_json::Value)>,
    broadcasts: Seq<(Broadcast, serde_json::Value)>,
    older_broadcasts: Seq<(Broadcast, serde_json::Value)>,
    answer: InboxPage,
)
    requires
        w.limit >= 0,
        older_notifications.len() == 0 || direct_arm(s, w, notifications).len() > w.limit,
        older_broadcasts.len() == 0 || broadcast_arm(s, w, broadcasts).len() > w.limit,
        forall|i: int, j: int|
            0 <= i < older_notifications.len() && 0 <= j < notifications.len()
                ==> !notification_row(s, #[trigger] older_notifications[i]).newer(
                notification_row(s, #[trigger] notifications[j]),
            ),
        forall|i: int, j: int|
            0 <= i < older_broadcasts.len() && 0 <= j < broadcasts.len() ==> !broadcast_row(
                s,
                #[trigger] older_broadcasts[i],
            ).newer(broadcast_row(s, #[trigger] broadcasts[j])),
        answer.answers(s, w, notifications, broadcasts),
    ensures
        answer.answers(
            s,
            w,
            notifications + older_notifications,
            broadcasts + older_broadcasts,
        ),
{
    broadcast use vstd::seq_lib::group_to_multiset_ensures;
    broadcast use vstd::multiset::group_multiset_axioms;

    let p = |n: (Notification, serde_json::Value)| lists_notification(s, w, n.0);
    let q = |b: (Broadcast, serde_json::Value)| lists_broadcast(s, w, b.0);
    let near = direct_arm(s, w, notifications);
    let far = direct_arm(s, w, older_notifications);
    let near_wide = broadcast_arm(s, w, broadcasts);
    let far_wide = broadcast_arm(s, w, older_broadcasts);
    let rows = listed_rows(s, w, notifications, broadcasts);
    let all = listed_rows(
        s,
        w,
        notifications + older_notifications,
        broadcasts + older_broadcasts,
    );
    Seq::filter_distributes_over_add(notifications, older_notifications, p);
    Seq::filter_distributes_over_add(broadcasts, older_broadcasts, q);
    assert(direct_arm(s, w, notifications + older_notifications) =~= near + far);
    assert(broadcast_arm(s, w, broadcasts + older_broadcasts) =~= near_wide + far_wide);
    older_notifications.lemma_filter_len(p);
    older_broadcasts.lemma_filter_len(q);
    assert forall|i: int, j: int| 0 <= i < far.len() && 0 <= j < near.len() implies !(
    #[trigger] far[i]).newer(#[trigger] near[j]) by {
        let f = older_notifications.filter(p);
        let n = notifications.filter(p);
        assert(f.contains(f[i]) && n.contains(n[j]));
        older_notifications.lemma_filter_contains_rev(p, f[i]);
        notifications.lemma_filter_contains_rev(p, n[j]);
        let a = choose|a: int|
            0 <= a < older_notifications.len() && older_notifications[a] == f[i];
        let b = choose|b: int| 0 <= b < notifications.len() && notifications[b] == n[j];
        assert(!notification_row(s, older_notifications[a]).newer(
            notification_row(s, notifications[b]),
        ));
    }
    assert forall|i: int, j: int| 0 <= i < far_wide.len() && 0 <= j < near_wide.len() implies !(
    #[trigger] far_wide[i]).newer(#[trigger] near_wide[j]) by {
        let f = older_broadcasts.filter(q);
        let n = broadcasts.filter(q);
        assert(f.contains(f[i]) && n.contains(n[j]));
        older_broadcasts.lemma_filter_contains_rev(q, f[i]);
        broadcasts.lemma_filter_contains_rev(q, n[j]);
        let a = choose|a: int| 0 <= a < older_broadcasts.len() && older_broadcasts[a] == f[i];
        let b = choose|b: int| 0 <= b < broadcasts.len() && broadcasts[b] == n[j];
        assert(!broadcast_row(s, older_broadcasts[a]).newer(broadcast_row(s, broadcasts[b])));
    }
    vstd::seq_lib::lemma_multiset_commutative(near, near_wide);
    vstd::seq_lib::lemma_multiset_commutative(near, far);
    vstd::seq_lib::lemma_multiset_commutative(near_wide, far_wide);
    vstd::seq_lib::lemma_multiset_commutative(near + far, near_wide + far_wide);
    let page = choose|page: Seq<MergedRow>|
        #[trigger] is_page(page, rows.to_multiset(), w.limit as int) && answer.shows(page) && (
        answer.next_cursor is Some ==> answer.leads_on_from(page.last()));
    lemma_older_rows_stay_off(page, near, far, near_wide.to_multiset(), w.limit as int);
    let direct = (near + far).to_multiset();
    assert(near.to_multiset().add(far.to_multiset()).add(near_wide.to_multiset())
        =~= near_wide.to_multiset().add(direct));
    lemma_older_rows_stay_off(page, near_wide, far_wide, direct, w.limit as int);
    assert(near_wide.to_multiset().add(far_wide.to_multiset()).add(direct) =~= all.to_multiset());
    assert(is_page(page, all.to_multiset(), w.limit as int));
}

/// Counting asks for no other broadcasts than those in the subscriber's inbox.
pub proof fn only_visible_broadcasts_count(s: Scope, broadcasts: Seq<Broadcast>)
    ensures
        ({
            let visible = broadcasts.filter(|b: Broadcast| s.shows_broadcast(b.state));
            &&& unread_total(s, visible) == unread_total(s, broadcasts)
            &&& unseen_total(s, visible) == unseen_total(s, broadcasts)
        }),
{
    let keep = |b: Broadcast| s.shows_broadcast(b.state);
    lemma_tally_filter(broadcasts, keep, |b: Broadcast| unread_above(s, b));
    lemma_tally_filter(broadcasts, keep, |b: Broadcast| unread_below(s, b));
    lemma_tally_filter(broadcasts, keep, |b: Broadcast| unseen_broadcast(s, b));
}

/// Counting for filters asks for no other items than those of the categories
/// that the filters name.
pub proof fn only_named_categories_count(
    s: Scope,
    notifications: Seq<Notification>,
    broadcasts: Seq<Broadcast>,
    names: Seq<Seq<char>>,
    rows: Seq<(int, Seq<char>)>,
    f: int,
)
    requires
        forall|i: int| 0 <= i < rows.len() ==> names.contains((#[trigger] rows[i]).1),
    ensures
        filter_total(
            s,
            notifications.filter(|n: Notification| names.contains(n.category@)),
            broadcasts.filter(|b: Broadcast| names.contains(b.category@)),
            rows,
            f,
        ) == filter_total(s, notifications, broadcasts, rows, f),
    decreases rows.len(),
{
    if rows.len() > 0 {
        let short = rows.drop_last();
        let category = rows.last().1;
        assert forall|i: int| 0 <= i < short.len() implies names.contains(
            (#[trigger] short[i]).1,
        ) by {
            assert(short[i] == rows[i]);
        }
        only_named_categories_count(s, notifications, broadcasts, names, short, f);
        assert(names.contains(rows[rows.len() - 1].1));
        let keep = |n: Notification| names.contains(n.category@);
        let keep_wide = |b: Broadcast| names.contains(b.category@);
        lemma_tally_filter(notifications, keep, category_above(s, category));
        lemma_tally_filter(notifications, keep, category_below(s, category));
        lemma_tally_filter(broadcasts, keep_wide, category_broadcast_above(s, category));
        lemma_tally_filter(broadcasts, keep_wide, category_broadcast_below(s, category));
    }
}

} // verus!
