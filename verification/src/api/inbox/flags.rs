//! What the flags, views and orders of an inbox come down to, column by column.

use vstd::prelude::*;
use super::list::{InboxFilter, ListWindow, MergedRow};
use super::rows::{
    is_muted, is_pending, rows_of, BroadcastState, Counters, DeliverJob, Notification,
    NotificationState, Preference, Scope,
};
use crate::text::u128_hyphenated;

verus! {

/// An explicit read wins over everything, an unread override over the
/// watermark alone, and without either the watermark decides: it reads what is
/// visible up to it.
pub proof fn what_reads_a_notification(n: NotificationState, c: Counters)
    ensures
        n.read_at is Some ==> n.is_read(c),
        n.read_at is None && n.unread_at is Some ==> !n.is_read(c),
        n.read_at is None && n.unread_at is None && n.visible_at <= c.read_watermark ==> n.is_read(
            c,
        ),
        n.read_at is None && n.unread_at is None && n.visible_at > c.read_watermark ==> !n.is_read(
            c,
        ),
{
}

/// An explicit archive wins over everything, an unarchive override over the
/// watermark alone, and without either the archive watermark decides.
pub proof fn what_archives_a_notification(n: NotificationState, c: Counters)
    ensures
        n.archived_at is Some ==> n.is_archived(c),
        n.archived_at is None && n.unarchived_at is Some ==> !n.is_archived(c),
        n.archived_at is None && n.unarchived_at is None && n.visible_at <= c.archive_watermark
            ==> n.is_archived(c),
        n.archived_at is None && n.unarchived_at is None && n.visible_at > c.archive_watermark
            ==> !n.is_archived(c),
{
}

/// A broadcast is what its exception says; without one it is read, or
/// archived, when it is no later than the watermark.
pub proof fn what_reads_and_archives_a_broadcast(b: BroadcastState, c: Counters)
    ensures
        b.read_exception matches Some(e) ==> b.is_read(c) == e.value,
        b.read_exception is None && b.created_at <= c.read_watermark ==> b.is_read(c),
        b.read_exception is None && b.created_at > c.read_watermark ==> !b.is_read(c),
        b.archive_exception matches Some(e) ==> b.is_archived(c) == e.value,
        b.archive_exception is None && b.created_at <= c.archive_watermark ==> b.is_archived(c),
        b.archive_exception is None && b.created_at > c.archive_watermark ==> !b.is_archived(c),
{
}

/// Read state hangs on the read watermark alone and archive state on the
/// archive watermark alone: no other counter moves either.
pub proof fn each_watermark_decides_its_own_state(
    n: NotificationState,
    b: BroadcastState,
    c: Counters,
    d: Counters,
)
    ensures
        c.read_watermark == d.read_watermark ==> n.is_read(c) == n.is_read(d) && b.is_read(c)
            == b.is_read(d),
        c.archive_watermark == d.archive_watermark ==> n.is_archived(c) == n.is_archived(d)
            && b.is_archived(c) == b.is_archived(d),
{
}

/// A category is muted exactly when some preference of that category for the
/// inbox channel is switched off. Absence means enabled.
pub proof fn what_mutes_a_category(preferences: Seq<Preference>, category: Seq<char>)
    ensures
        is_muted(preferences, category) <==> exists|i: int|
            0 <= i < preferences.len() && (#[trigger] preferences[i]).category@ == category
                && preferences[i].channel@ == "in_app"@ && !preferences[i].enabled,
        preferences.len() == 0 ==> !is_muted(preferences, category),
{
    if exists|i: int|
        0 <= i < preferences.len() && (#[trigger] preferences[i]).category@ == category
            && preferences[i].channel@ == "in_app"@ && !preferences[i].enabled {
        let i = choose|i: int|
            0 <= i < preferences.len() && (#[trigger] preferences[i]).category@ == category
                && preferences[i].channel@ == "in_app"@ && !preferences[i].enabled;
        assert(preferences[i].mutes(category));
    }
    if is_muted(preferences, category) {
        let i = choose|i: int|
            0 <= i < preferences.len() && (#[trigger] preferences[i]).mutes(category);
        assert(preferences[i].category@ == category && !preferences[i].enabled);
    }
}

/// A delivery owns a notification exactly when some job names it, by its
/// hyphenated id, at or after the job's offset; a job without an offset has
/// finished none.
pub proof fn what_keeps_a_delivery_pending(jobs: Seq<DeliverJob>, id: u128)
    ensures
        is_pending(jobs, id) <==> exists|i: int, k: int|
            0 <= i < jobs.len() && (#[trigger] jobs[i]).notification_ids is Some && 0 <= k
                < jobs[i].notification_ids->0@.len() && (
            #[trigger] jobs[i].notification_ids->0@[k])@ == u128_hyphenated(id) && (
            jobs[i].offset matches Some(n) ==> k >= n),
{
    if exists|i: int, k: int|
        0 <= i < jobs.len() && (#[trigger] jobs[i]).notification_ids is Some && 0 <= k
            < jobs[i].notification_ids->0@.len() && (#[trigger] jobs[i].notification_ids->0@[k])@
            == u128_hyphenated(id) && (jobs[i].offset matches Some(n) ==> k >= n) {
        let (i, k) = choose|i: int, k: int|
            0 <= i < jobs.len() && (#[trigger] jobs[i]).notification_ids is Some && 0 <= k
                < jobs[i].notification_ids->0@.len() && (
            #[trigger] jobs[i].notification_ids->0@[k])@ == u128_hyphenated(id) && (
            jobs[i].offset matches Some(n) ==> k >= n);
        assert(k >= jobs[i].finished());
        assert(jobs[i].notification_ids->0@[k]@ == u128_hyphenated(id));
        assert(jobs[i].owns(id));
    }
    if is_pending(jobs, id) {
        let i = choose|i: int| 0 <= i < jobs.len() && (#[trigger] jobs[i]).owns(id);
        let ids = jobs[i].notification_ids->0@;
        let k = choose|k: int|
            0 <= k < ids.len() && k >= jobs[i].finished() && (#[trigger] ids[k])@
                == u128_hyphenated(id);
        assert(jobs[i].notification_ids->0@[k]@ == u128_hyphenated(id));
    }
}

/// A scheduled notification is not in the inbox before its instant, and a
/// broadcast is in it only for those who were subscribed when it was created.
pub proof fn what_the_inbox_holds(s: Scope, n: Notification, b: BroadcastState)
    ensures
        n.state.visible_at > s.now ==> !s.shows_notification(n),
        n.state.visible_at <= s.now ==> s.shows_notification(n),
        b.created_at < s.subscriber_created_at ==> !s.shows_broadcast(b),
        b.created_at >= s.subscriber_created_at ==> s.shows_broadcast(b),
{
}

/// The maintained counter holds one for a notification exactly when it has
/// been delivered and is neither muted nor archived nor read.
pub proof fn what_the_counter_holds(s: Scope, n: Notification)
    ensures
        is_pending(s.deliver_jobs@, n.id) ==> !s.counts(n),
        is_muted(s.preferences@, n.category@) ==> !s.counts(n),
        n.state.is_archived(s.counters) ==> !s.counts(n),
        n.state.is_read(s.counters) ==> !s.counts(n),
        s.counts(n) || is_pending(s.deliver_jobs@, n.id) || is_muted(s.preferences@, n.category@)
            || n.state.is_archived(s.counters) || n.state.is_read(s.counters),
{
}

/// The default view holds what is not archived, read or not; the unread view
/// what is neither archived nor read; the archived view what is archived, read
/// or not.
pub proof fn what_a_view_holds(read: bool)
    ensures
        InboxFilter::Default.admits(read, false) && !InboxFilter::Default.admits(read, true),
        InboxFilter::Unread.admits(false, false) && !InboxFilter::Unread.admits(true, false)
            && !InboxFilter::Unread.admits(read, true),
        InboxFilter::Archived.admits(read, true) && !InboxFilter::Archived.admits(read, false),
{
}

/// A request that names no view gets the default one; the other two views are
/// named by the text that they are shown by; no other name names a view.
pub proof fn what_names_a_view(name: Seq<char>)
    ensures
        InboxFilter::named(None) == Some(InboxFilter::Default),
        InboxFilter::named(Some(name)) is Some <==> name == "unread"@ || name == "archived"@,
        InboxFilter::named(Some(name)) matches Some(f) ==> f.text() == name && !(f is Default),
        InboxFilter::Default.text() == "default"@,
        InboxFilter::Unread.text() == "unread"@,
        InboxFilter::Archived.text() == "archived"@,
{
    reveal_strlit("unread");
    reveal_strlit("archived");
    assert("unread"@.len() != "archived"@.len());
}

/// The order of the list: by instant, later first, and at one instant by id,
/// greater first. What stands below a cursor is what the cursor's row stands
/// before.
pub proof fn what_orders_the_list(a: MergedRow, b: MergedRow, w: ListWindow)
    ensures
        a.occurred_at > b.occurred_at ==> a.newer(b) && !b.newer(a),
        a.occurred_at == b.occurred_at && a.id > b.id ==> a.newer(b) && !b.newer(a),
        a.occurred_at == b.occurred_at && a.id == b.id ==> !a.newer(b) && !b.newer(a),
        w.cursor_ts == a.occurred_at && w.cursor_id == a.id ==> w.below(b.occurred_at, b.id)
            == a.newer(b),
{
}

/// All rows of an owner are kept, in order, and none of the others.
pub proof fn own_rows_are_all_kept<K, T>(owner: K, rows: Seq<(K, T)>, other: (K, T))
    requires
        forall|i: int| 0 <= i < rows.len() ==> (#[trigger] rows[i]).0 == owner,
        other.0 != owner,
    ensures
        rows_of(owner, rows) == rows.map_values(|r: (K, T)| r.1),
        rows_of(owner, rows.push(other)) == rows.map_values(|r: (K, T)| r.1),
    decreases rows.len(),
{
    reveal(Seq::filter);
    if rows.len() > 0 {
        let short = rows.drop_last();
        assert forall|i: int| 0 <= i < short.len() implies (#[trigger] short[i]).0 == owner by {
            assert(short[i] == rows[i]);
        }
        own_rows_are_all_kept(owner, short, other);
        assert(rows[rows.len() - 1].0 == owner);
        assert(rows_of(owner, rows) =~= rows_of(owner, short).push(rows.last().1));
        assert(rows.map_values(|r: (K, T)| r.1) =~= short.map_values(|r: (K, T)| r.1).push(
            rows.last().1,
        ));
    } else {
        assert(rows_of(owner, rows) =~= rows.map_values(|r: (K, T)| r.1));
    }
    assert(rows.push(other).drop_last() =~= rows);
    assert(rows_of(owner, rows.push(other)) =~= rows_of(owner, rows));
}

} // verus!
