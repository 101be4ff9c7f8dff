//! What a request does to the items it concerns, and what it leaves alone.

use vstd::prelude::*;
use super::actions::{
    archive_change, archived_after, broadcast_change, changed_rows, collected_rows,
    counted_once_unarchived, counted_once_unread, counter_full,
    exception_collected, read_after, read_change, unarchive_change, unread_change, HintReason,
    NotificationChange,
};
use super::counts::{unread_above, unread_below, unread_total, unseen_broadcast, unseen_total};
use super::laws::InboxState;
use super::rows::{
    Broadcast, BroadcastState, Exception, Notification, NotificationState, Scope,
};
use crate::tally::{lemma_tally_none, lemma_tally_same};

verus! {

/// The scope after a notification change was written, at a later instant.
pub open spec fn scope_after(s: Scope, change: Option<NotificationChange>, now: i64) -> Scope {
    Scope {
        now,
        counters: match change {
            Some(c) => c.counters,
            None => s.counters,
        },
        ..s
    }
}

/// The notification after a change was written.
pub open spec fn after(n: Notification, change: Option<NotificationChange>) -> Notification {
    Notification {
        state: match change {
            Some(c) => c.state,
            None => n.state,
        },
        ..n
    }
}

/// Marking a notification read leaves it read, its archive state untouched,
/// and nothing to do for a second request.
pub proof fn reading_reads_once(s: Scope, n: Notification, now: i64)
    ensures
        ({
            let change = read_change(s, n);
            let (t, m) = (scope_after(s, change, now), after(n, change));
            &&& m.state.is_read(t.counters)
            &&& m.state.is_archived(t.counters) == n.state.is_archived(s.counters)
            &&& read_change(t, m) is None
        }),
{
}

/// Marking a notification unread leaves it unread, also at or below the read
/// watermark, its archive state untouched, and nothing to do for a second
/// request.
pub proof fn unreading_unreads_once(s: Scope, n: Notification, now: i64)
    ensures
        ({
            let change = unread_change(s, n);
            let (t, m) = (scope_after(s, change, now), after(n, change));
            &&& !m.state.is_read(t.counters)
            &&& m.state.is_archived(t.counters) == n.state.is_archived(s.counters)
            &&& unread_change(t, m) is None
        }),
{
}

/// Archiving a notification leaves it archived, its read state untouched, and
/// nothing to do for a second request.
pub proof fn archiving_archives_once(s: Scope, n: Notification, now: i64)
    ensures
        ({
            let change = archive_change(s, n);
            let (t, m) = (scope_after(s, change, now), after(n, change));
            &&& m.state.is_archived(t.counters)
            &&& m.state.is_read(t.counters) == n.state.is_read(s.counters)
            &&& archive_change(t, m) is None
        }),
{
}

/// Unarchiving a notification returns it, also at or below the archive
/// watermark, its read state untouched, and nothing to do for a second
/// request.
pub proof fn unarchiving_unarchives_once(s: Scope, n: Notification, now: i64)
    ensures
        ({
            let change = unarchive_change(s, n);
            let (t, m) = (scope_after(s, change, now), after(n, change));
            &&& !m.state.is_archived(t.counters)
            &&& m.state.is_read(t.counters) == n.state.is_read(s.counters)
            &&& unarchive_change(t, m) is None
        }),
{
}

/// Reading an unread notification and unreading it again restores the
/// maintained count.
pub proof fn unreading_undoes_reading(s: Scope, n: Notification, now: i64)
    requires
        !n.state.is_read(s.counters),
        s.counters.unread_direct_count >= if s.counts(n) {
            1int
        } else {
            0
        },
    ensures
        ({
            let read = read_change(s, n);
            let (t, m) = (scope_after(s, read, now), after(n, read));
            let unread = unread_change(t, m);
            &&& unread is Some
            &&& unread->0.counters.unread_direct_count == s.counters.unread_direct_count
            &&& !counter_full(t, unread, counted_once_unread(t, m))
        }),
{
    let read = read_change(s, n);
    let (t, m) = (scope_after(s, read, now), after(n, read));
    assert(counted_once_unread(t, m) == s.counts(n));
}

/// Archiving a notification and unarchiving it again restores the maintained
/// count.
pub proof fn unarchiving_undoes_archiving(s: Scope, n: Notification, now: i64)
    requires
        !n.state.is_archived(s.counters),
        s.counters.unread_direct_count >= if s.counts(n) {
            1int
        } else {
            0
        },
    ensures
        ({
            let archived = archive_change(s, n);
            let (t, m) = (scope_after(s, archived, now), after(n, archived));
            let restored = unarchive_change(t, m);
            &&& restored is Some
            &&& restored->0.counters.unread_direct_count == s.counters.unread_direct_count
            &&& !counter_full(t, restored, counted_once_unarchived(t, m))
        }),
{
    let archived = archive_change(s, n);
    let (t, m) = (scope_after(s, archived, now), after(n, archived));
    assert(counted_once_unarchived(t, m) == s.counts(n));
}

/// Every change that a request writes for one item moves the change instant of
/// the counters to the request's own.
pub proof fn every_change_is_dated(
    s: Scope,
    n: Notification,
    before: Option<Exception>,
    next: Option<Exception>,
    hint: HintReason,
)
    ensures
        broadcast_change(s, before, next, hint) matches Some(c) ==> c.counters.updated_at
            == s.now,
        read_change(s, n) matches Some(c) ==> c.counters.updated_at == s.now,
        unread_change(s, n) matches Some(c) ==> c.counters.updated_at == s.now,
        archive_change(s, n) matches Some(c) ==> c.counters.updated_at == s.now,
        unarchive_change(s, n) matches Some(c) ==> c.counters.updated_at == s.now,
{
}

/// Marking a broadcast read (`value`) or unread leaves it so, its archive
/// state untouched, and nothing to do for a second request.
pub proof fn broadcast_reads_once(s: Scope, b: BroadcastState, value: bool)
    ensures
        ({
            let next = BroadcastState { read_exception: read_after(s, b, value), ..b };
            &&& next.is_read(s.counters) == value
            &&& next.is_archived(s.counters) == b.is_archived(s.counters)
            &&& b.wf() ==> next.wf()
            &&& read_after(s, next, value) == next.read_exception
        }),
{
}

/// Archiving (`value`) or unarchiving a broadcast leaves it so, its read state
/// untouched, and nothing to do for a second request.
pub proof fn broadcast_archives_once(s: Scope, b: BroadcastState, value: bool)
    ensures
        ({
            let next = BroadcastState { archive_exception: archived_after(s, b, value), ..b };
            &&& next.is_archived(s.counters) == value
            &&& next.is_read(s.counters) == b.is_read(s.counters)
            &&& b.wf() ==> next.wf()
            &&& archived_after(s, next, value) == next.archive_exception
        }),
{
}

/// Marking everything read at `clock` reads every item up to that instant,
/// leaves the state of every later item as it was, and touches no archive
/// state.
pub proof fn marking_all_read_reads_everything(st: InboxState, clock: i64)
    requires
        st.wf(),
        clock >= st.scope.counters.read_watermark,
    ensures
        ({
            let (c, d) = (st.scope.counters, st.all_read(clock).scope.counters);
            &&& forall|i: int|
                0 <= i < st.notifications.len() ==> ({
                    let m = (#[trigger] st.all_read(clock).notifications[i]).state;
                    let n = st.notifications[i].state;
                    &&& m.is_read(d) == (n.visible_at <= clock || n.is_read(c))
                    &&& m.is_archived(d) == n.is_archived(c)
                })
            &&& forall|i: int|
                0 <= i < st.broadcasts.len() ==> ({
                    let m = (#[trigger] st.all_read(clock).broadcasts[i]).state;
                    let b = st.broadcasts[i].state;
                    &&& m.is_read(d) == (b.created_at <= clock || b.is_read(c))
                    &&& m.is_archived(d) == b.is_archived(c)
                })
        }),
{
    assert forall|i: int| 0 <= i < st.broadcasts.len() implies ({
        let m = (#[trigger] st.all_read(clock).broadcasts[i]).state;
        let b = st.broadcasts[i].state;
        &&& m.is_read(st.all_read(clock).scope.counters) == (b.created_at <= clock || b.is_read(
            st.scope.counters,
        ))
        &&& m.is_archived(st.all_read(clock).scope.counters) == b.is_archived(st.scope.counters)
    }) by {
        assert(st.broadcasts[i].state.wf());
    }
}

/// Archiving everything at `clock` archives every item up to that instant,
/// leaves the state of every later item as it was, and touches no read state.
pub proof fn archiving_all_archives_everything(st: InboxState, clock: i64)
    requires
        st.wf(),
        clock >= st.scope.counters.archive_watermark,
    ensures
        ({
            let (c, d) = (st.scope.counters, st.all_archived(clock).scope.counters);
            &&& forall|i: int|
                0 <= i < st.notifications.len() ==> ({
                    let m = (#[trigger] st.all_archived(clock).notifications[i]).state;
                    let n = st.notifications[i].state;
                    &&& m.is_archived(d) == (n.visible_at <= clock || n.is_archived(c))
                    &&& m.is_read(d) == n.is_read(c)
                })
            &&& forall|i: int|
                0 <= i < st.broadcasts.len() ==> ({
                    let m = (#[trigger] st.all_archived(clock).broadcasts[i]).state;
                    let b = st.broadcasts[i].state;
                    &&& m.is_archived(d) == (b.created_at <= clock || b.is_archived(c))
                    &&& m.is_read(d) == b.is_read(c)
                })
        }),
{
    assert forall|i: int| 0 <= i < st.broadcasts.len() implies ({
        let m = (#[trigger] st.all_archived(clock).broadcasts[i]).state;
        let b = st.broadcasts[i].state;
        &&& m.is_archived(st.all_archived(clock).scope.counters) == (b.created_at <= clock
            || b.is_archived(st.scope.counters))
        &&& m.is_read(st.all_archived(clock).scope.counters) == b.is_read(st.scope.counters)
    }) by {
        assert(st.broadcasts[i].state.wf());
    }
}

/// Once everything is marked read at an instant that no broadcast is later
/// than, nothing is unread.
pub proof fn nothing_is_unread_after_marking_all_read(st: InboxState, clock: i64)
    requires
        st.wf(),
        forall|i: int|
            0 <= i < st.broadcasts.len() ==> (#[trigger] st.broadcasts[i]).state.created_at
                <= clock,
    ensures
        unread_total(st.all_read(clock).scope, st.all_read(clock).broadcasts) == 0,
{
    let next = st.all_read(clock);
    assert forall|i: int| 0 <= i < next.broadcasts.len() implies !unread_above(
        next.scope,
        #[trigger] next.broadcasts[i],
    ) && !unread_below(next.scope, next.broadcasts[i]) by {
        assert(st.broadcasts[i].state.wf());
        assert(st.broadcasts[i].state.created_at <= clock);
    }
    lemma_tally_none(next.broadcasts, |b: Broadcast| unread_above(next.scope, b));
    lemma_tally_none(next.broadcasts, |b: Broadcast| unread_below(next.scope, b));
}

/// A broadcast that only its exceptions tell from another is unseen as the
/// other is.
proof fn lemma_unseen_stays(st: InboxState, next: InboxState)
    requires
        next.scope.counters.seen_watermark == st.scope.counters.seen_watermark,
        next.scope.counters.unseen_direct_count == st.scope.counters.unseen_direct_count,
        next.scope.preferences == st.scope.preferences,
        next.scope.subscriber_created_at == st.scope.subscriber_created_at,
        next.broadcasts.len() == st.broadcasts.len(),
        forall|i: int|
            0 <= i < st.broadcasts.len() ==> (#[trigger] st.broadcasts[i]).state.created_at
                == next.broadcasts[i].state.created_at && st.broadcasts[i].category
                == next.broadcasts[i].category,
    ensures
        unseen_total(next.scope, next.broadcasts) == unseen_total(st.scope, st.broadcasts),
{
    lemma_tally_same(
        st.broadcasts,
        |b: Broadcast| unseen_broadcast(st.scope, b),
        next.broadcasts,
        |b: Broadcast| unseen_broadcast(next.scope, b),
    );
}

/// Marking everything read leaves the unseen count as it was.
pub proof fn marking_all_read_leaves_the_unseen_count(st: InboxState, clock: i64)
    ensures
        unseen_total(st.all_read(clock).scope, st.all_read(clock).broadcasts) == unseen_total(
            st.scope,
            st.broadcasts,
        ),
{
    lemma_unseen_stays(st, st.all_read(clock));
}

/// Archiving everything leaves the unseen count as it was.
pub proof fn archiving_all_leaves_the_unseen_count(st: InboxState, clock: i64)
    ensures
        unseen_total(st.all_archived(clock).scope, st.all_archived(clock).broadcasts)
            == unseen_total(st.scope, st.broadcasts),
{
    lemma_unseen_stays(st, st.all_archived(clock));
}

/// Once everything is archived at an instant that no broadcast is later than,
/// nothing is unread.
pub proof fn nothing_is_unread_after_archiving_all(st: InboxState, clock: i64)
    requires
        st.wf(),
        forall|i: int|
            0 <= i < st.broadcasts.len() ==> (#[trigger] st.broadcasts[i]).state.created_at
                <= clock,
    ensures
        unread_total(st.all_archived(clock).scope, st.all_archived(clock).broadcasts) == 0,
{
    let next = st.all_archived(clock);
    assert forall|i: int| 0 <= i < next.broadcasts.len() implies !unread_above(
        next.scope,
        #[trigger] next.broadcasts[i],
    ) && !unread_below(next.scope, next.broadcasts[i]) by {
        assert(st.broadcasts[i].state.wf());
        assert(st.broadcasts[i].state.created_at <= clock);
    }
    lemma_tally_none(next.broadcasts, |b: Broadcast| unread_above(next.scope, b));
    lemma_tally_none(next.broadcasts, |b: Broadcast| unread_below(next.scope, b));
}

/// Once everything is marked seen at an instant that no broadcast is later
/// than, nothing is unseen, and the unread count is what it was.
pub proof fn nothing_is_unseen_after_marking_all_seen(st: InboxState, clock: i64)
    requires
        st.wf(),
        forall|i: int|
            0 <= i < st.broadcasts.len() ==> (#[trigger] st.broadcasts[i]).state.created_at
                <= clock,
    ensures
        unseen_total(st.all_seen(clock).scope, st.all_seen(clock).broadcasts) == 0,
        unread_total(st.all_seen(clock).scope, st.all_seen(clock).broadcasts) == unread_total(
            st.scope,
            st.broadcasts,
        ),
{
    let next = st.all_seen(clock);
    assert forall|i: int| 0 <= i < next.broadcasts.len() implies !unseen_broadcast(
        next.scope,
        #[trigger] next.broadcasts[i],
    ) by {
        assert(st.broadcasts[i].state.created_at <= clock);
    }
    lemma_tally_none(next.broadcasts, |b: Broadcast| unseen_broadcast(next.scope, b));
    lemma_tally_same(
        st.broadcasts,
        |b: Broadcast| unread_above(st.scope, b),
        next.broadcasts,
        |b: Broadcast| unread_above(next.scope, b),
    );
    lemma_tally_same(
        st.broadcasts,
        |b: Broadcast| unread_below(st.scope, b),
        next.broadcasts,
        |b: Broadcast| unread_below(next.scope, b),
    );
}

/// The ids that a moved watermark clears are those of the rows that it
/// changes, and of no others.
pub proof fn cleared_are_the_changed_rows(
    rows: Seq<Notification>,
    f: spec_fn(NotificationState) -> NotificationState,
    i: int,
)
    requires
        0 <= i < rows.len(),
        forall|a: int, b: int|
            0 <= a < rows.len() && 0 <= b < rows.len() && (#[trigger] rows[a]).id == (
            #[trigger] rows[b]).id ==> a == b,
    ensures
        changed_rows(rows, f).contains(rows[i].id) <==> f(rows[i].state) != rows[i].state,
{
    let p = |n: Notification| f(n.state) != n.state;
    let kept = rows.filter(p);
    let ids = changed_rows(rows, f);
    if p(rows[i]) {
        rows.lemma_filter_contains(p, i);
        let k = choose|k: int| 0 <= k < kept.len() && kept[k] == rows[i];
        assert(ids[k] == rows[i].id);
    }
    if ids.contains(rows[i].id) {
        let k = choose|k: int| 0 <= k < ids.len() && ids[k] == rows[i].id;
        assert(kept[k].id == rows[i].id);
        rows.lemma_filter_pred(p, k);
        assert(kept.contains(kept[k]));
        rows.lemma_filter_contains_rev(p, kept[k]);
        let j = choose|j: int| 0 <= j < rows.len() && rows[j] == kept[k];
        assert(rows[j].id == rows[i].id);
    }
}

/// The exceptions that a moved watermark deletes are those that it passes, and
/// no others.
pub proof fn dropped_are_the_passed_exceptions(
    exceptions: Seq<(u128, Exception)>,
    watermark: i64,
    i: int,
)
    requires
        0 <= i < exceptions.len(),
        forall|a: int, b: int|
            0 <= a < exceptions.len() && 0 <= b < exceptions.len() && (#[trigger] exceptions[a]).0
                == (#[trigger] exceptions[b]).0 ==> a == b,
    ensures
        collected_rows(exceptions, watermark).contains(exceptions[i].0) <==> exceptions[i].1.broadcast_created_at
            <= watermark,
{
    let p = |e: (u128, Exception)| exception_collected(Some(e.1), watermark) is None;
    let kept = exceptions.filter(p);
    let ids = collected_rows(exceptions, watermark);
    if p(exceptions[i]) {
        exceptions.lemma_filter_contains(p, i);
        let k = choose|k: int| 0 <= k < kept.len() && kept[k] == exceptions[i];
        assert(ids[k] == exceptions[i].0);
    }
    if ids.contains(exceptions[i].0) {
        let k = choose|k: int| 0 <= k < ids.len() && ids[k] == exceptions[i].0;
        assert(kept[k].0 == exceptions[i].0);
        exceptions.lemma_filter_pred(p, k);
        assert(kept.contains(kept[k]));
        exceptions.lemma_filter_contains_rev(p, kept[k]);
        let j = choose|j: int| 0 <= j < exceptions.len() && exceptions[j] == kept[k];
        assert(exceptions[j].0 == exceptions[i].0);
    }
}

} // verus!
