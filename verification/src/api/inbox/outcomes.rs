//! What a request that was written leaves of the items that it concerns.

use vstd::prelude::*;
use super::actions::{
    archive_change, archive_overrides_cleared, archived_after, broadcast_change, changed_rows,
    collected_rows, counted_once_unarchived, counted_once_unread, counter_full,
    exception_collected, finds_broadcast, finds_notification, read_after, read_change,
    read_override_cleared, unarchive_change, unread_change, window_passed, HintReason,
    NotificationChange, TimelineStatus,
};
use super::effects::{after, scope_after};
use super::laws::InboxState;
use super::rows::{
    is_pending, BroadcastState, Counters, Exception, Notification, NotificationState, Scope,
};

verus! {

/// Whatever exception a broadcast had, it is read after a read request
/// (`value`) and unread after an unread request, once what the request returns
/// is written; a request that returns nothing finds it so already. The
/// broadcast's archive state, every other item and the counters but for their
/// change instant stay as they were.
pub proof fn a_broadcast_is_read_as_asked(st: InboxState, i: int, value: bool)
    requires
        0 <= i < st.broadcasts.len(),
    ensures
        ({
            let b = st.broadcasts[i].state;
            let change = broadcast_change(
                st.scope,
                b.read_exception,
                read_after(st.scope, b, value),
                HintReason::ReadState,
            );
            let next = st.read_exception_changed(i, change);
            let m = next.broadcasts[i].state;
            &&& m.is_read(next.scope.counters) == value
            &&& value == match m.read_exception {
                Some(e) => e.value,
                None => b.created_at <= st.scope.counters.read_watermark,
            }
            &&& change is None <==> b.is_read(st.scope.counters) == value
            &&& change matches Some(c) ==> c.hint is ReadState && c.exception
                == m.read_exception
            &&& m.created_at == b.created_at && m.archive_exception == b.archive_exception
            &&& m.is_archived(next.scope.counters) == b.is_archived(st.scope.counters)
            &&& b.wf() ==> m.wf()
            &&& next.notifications == st.notifications
            &&& next.broadcasts.len() == st.broadcasts.len()
            &&& forall|j: int|
                0 <= j < st.broadcasts.len() && j != i ==> next.broadcasts[j]
                    == #[trigger] st.broadcasts[j]
            &&& next.broadcasts[i].id == st.broadcasts[i].id && next.broadcasts[i].category
                == st.broadcasts[i].category
            &&& next.scope.counters == (Counters {
                updated_at: next.scope.counters.updated_at,
                ..st.scope.counters
            })
        }),
{
}

/// Whatever exception a broadcast had, it is archived after an archive request
/// (`value`) and not archived after an unarchive request, once what the
/// request returns is written; a request that returns nothing finds it so
/// already. The broadcast's read state, every other item and the counters but
/// for their change instant stay as they were.
pub proof fn a_broadcast_is_archived_as_asked(st: InboxState, i: int, value: bool)
    requires
        0 <= i < st.broadcasts.len(),
    ensures
        ({
            let b = st.broadcasts[i].state;
            let change = broadcast_change(
                st.scope,
                b.archive_exception,
                archived_after(st.scope, b, value),
                HintReason::ArchiveState,
            );
            let next = st.archive_exception_changed(i, change);
            let m = next.broadcasts[i].state;
            &&& m.is_archived(next.scope.counters) == value
            &&& value == match m.archive_exception {
                Some(e) => e.value,
                None => b.created_at <= st.scope.counters.archive_watermark,
            }
            &&& change is None <==> b.is_archived(st.scope.counters) == value
            &&& change matches Some(c) ==> c.hint is ArchiveState && c.exception
                == m.archive_exception
            &&& m.created_at == b.created_at && m.read_exception == b.read_exception
            &&& m.is_read(next.scope.counters) == b.is_read(st.scope.counters)
            &&& b.wf() ==> m.wf()
            &&& next.notifications == st.notifications
            &&& next.broadcasts.len() == st.broadcasts.len()
            &&& forall|j: int|
                0 <= j < st.broadcasts.len() && j != i ==> next.broadcasts[j]
                    == #[trigger] st.broadcasts[j]
            &&& next.broadcasts[i].id == st.broadcasts[i].id && next.broadcasts[i].category
                == st.broadcasts[i].category
            &&& next.scope.counters == (Counters {
                updated_at: next.scope.counters.updated_at,
                ..st.scope.counters
            })
        }),
{
}

/// The last of two requests for one broadcast decides, whatever the first was
/// and whatever exception there was before.
pub proof fn the_last_request_for_a_broadcast_decides(
    st: InboxState,
    i: int,
    first: bool,
    last: bool,
)
    requires
        0 <= i < st.broadcasts.len(),
    ensures
        ({
            let b = st.broadcasts[i].state;
            let one = st.read_exception_changed(
                i,
                broadcast_change(
                    st.scope,
                    b.read_exception,
                    read_after(st.scope, b, first),
                    HintReason::ReadState,
                ),
            );
            let c = one.broadcasts[i].state;
            let change = broadcast_change(
                one.scope,
                c.read_exception,
                read_after(one.scope, c, last),
                HintReason::ReadState,
            );
            let two = one.read_exception_changed(i, change);
            &&& two.broadcasts[i].state.is_read(two.scope.counters) == last
            &&& change is Some <==> first != last
        }),
{
}

/// An exception row is kept only where the watermark does not say the same
/// already: no request writes a row that agrees with the watermark.
pub proof fn no_row_repeats_the_watermark(s: Scope, b: BroadcastState, value: bool)
    ensures
        broadcast_change(s, b.read_exception, read_after(s, b, value), HintReason::ReadState)
            matches Some(c) ==> (c.exception is None <==> (b.created_at
            <= s.counters.read_watermark) == value),
        broadcast_change(
            s,
            b.archive_exception,
            archived_after(s, b, value),
            HintReason::ArchiveState,
        ) matches Some(c) ==> (c.exception is None <==> (b.created_at
            <= s.counters.archive_watermark) == value),
{
}

/// What the four requests for one notification write: nothing exactly when
/// there is nothing to do, else the new instants, the reason for the hint and,
/// for a read alone, a timeline status. Marking read also dates an item that
/// only the watermark had read.
pub proof fn what_a_request_writes_for_a_notification(s: Scope, n: Notification)
    ensures
        read_change(s, n) is None <==> n.state.read_at is Some,
        read_change(s, n) matches Some(c) ==> c.state.read_at == Some(s.now)
            && c.state.unread_at is None && c.state.archived_at == n.state.archived_at
            && c.state.unarchived_at == n.state.unarchived_at && c.state.visible_at
            == n.state.visible_at && c.timeline == Some(TimelineStatus::Read)
            && c.hint is ReadState,
        unread_change(s, n) is None <==> !n.state.is_read(s.counters),
        unread_change(s, n) matches Some(c) ==> c.state.read_at is None && (
        c.state.unread_at is Some <==> n.state.visible_at <= s.counters.read_watermark) && (
        c.state.unread_at matches Some(t) ==> t == s.now) && c.state.archived_at
            == n.state.archived_at && c.state.unarchived_at == n.state.unarchived_at
            && c.state.visible_at == n.state.visible_at && c.timeline is None && c.hint is ReadState,
        archive_change(s, n) is None <==> n.state.is_archived(s.counters),
        archive_change(s, n) matches Some(c) ==> c.state.archived_at == Some(s.now)
            && c.state.unarchived_at is None && c.state.read_at == n.state.read_at
            && c.state.unread_at == n.state.unread_at && c.state.visible_at == n.state.visible_at
            && c.timeline is None && c.hint is ArchiveState,
        unarchive_change(s, n) is None <==> !n.state.is_archived(s.counters),
        unarchive_change(s, n) matches Some(c) ==> c.state.archived_at is None && (
        c.state.unarchived_at is Some <==> n.state.visible_at <= s.counters.archive_watermark) && (
        c.state.unarchived_at matches Some(t) ==> t == s.now) && c.state.read_at == n.state.read_at
            && c.state.unread_at == n.state.unread_at && c.state.visible_at == n.state.visible_at
            && c.timeline is None && c.hint is ArchiveState,
{
}

/// A request for one notification moves the unread counter by the item alone:
/// by one exactly when the item enters or leaves what is counted, and never
/// below zero. No watermark moves, nor does the unseen counter.
pub proof fn what_a_request_does_to_the_counters(
    s: Scope,
    n: Notification,
    change: Option<NotificationChange>,
    now: i64,
)
    requires
        change == read_change(s, n) || change == archive_change(s, n) || (change == unread_change(
            s,
            n,
        ) && !counter_full(s, change, counted_once_unread(s, n))) || (change == unarchive_change(
            s,
            n,
        ) && !counter_full(s, change, counted_once_unarchived(s, n))),
    ensures
        ({
            let (t, m) = (scope_after(s, change, now), after(n, change));
            let before: int = s.counters.unread_direct_count as int;
            let moved: int = (if t.counts(m) {
                1int
            } else {
                0
            }) - (if s.counts(n) {
                1int
            } else {
                0
            });
            &&& before + moved >= 0 && before >= 0 ==> t.counters.unread_direct_count == before
                + moved
            &&& before >= 0 ==> t.counters.unread_direct_count >= 0
            &&& t.counters.read_watermark == s.counters.read_watermark
            &&& t.counters.seen_watermark == s.counters.seen_watermark
            &&& t.counters.archive_watermark == s.counters.archive_watermark
            &&& t.counters.unseen_direct_count == s.counters.unseen_direct_count
            &&& change is Some ==> t.counters.updated_at == s.now
        }),
{
}

/// A request that would push the counter out of its range is the only one that
/// fails for an item in the inbox.
pub proof fn when_the_counter_is_full(s: Scope, n: Notification)
    ensures
        counter_full(s, unread_change(s, n), counted_once_unread(s, n)) <==> s.counters.unread_direct_count
            == i32::MAX && n.state.is_read(s.counters) && !n.state.is_archived(s.counters)
            && !s.mutes(n.category@) && !is_pending(s.deliver_jobs@, n.id),
        counter_full(s, unarchive_change(s, n), counted_once_unarchived(s, n))
            <==> s.counters.unread_direct_count == i32::MAX && n.state.is_archived(s.counters)
            && !n.state.is_read(s.counters) && !s.mutes(n.category@) && !is_pending(
            s.deliver_jobs@,
            n.id,
        ),
{
}

/// A request concerns only what is in the inbox: a notification that is
/// visible, a broadcast no older than the subscriber.
pub proof fn what_a_request_can_concern(
    s: Scope,
    n: &Notification,
    b: BroadcastState,
)
    ensures
        finds_notification(s, Some(n)) <==> n.state.visible_at <= s.now,
        !finds_notification(s, None),
        finds_broadcast(s, Some(b)) <==> b.created_at >= s.subscriber_created_at,
        !finds_broadcast(s, None),
{
}

/// The timeline window of a moved watermark covers exactly the instants after
/// the old watermark and up to the new one, and there is none unless some
/// instant is covered.
pub proof fn a_timeline_window_covers_what_was_passed(
    status: TimelineStatus,
    from: i64,
    to: i64,
    t: i64,
)
    ensures
        from < t <= to <==> (window_passed(status, from, to) matches Some(w) && w.after < t && t
            <= w.upto),
        window_passed(status, from, to) matches Some(w) ==> w.status == status && w.after < w.upto,
{
}

/// What a moved watermark leaves of the rows: a row that it passed has no
/// override of that kind any more, a row beyond it is untouched, and nothing
/// else of any row changes.
pub proof fn what_a_moved_watermark_leaves(n: NotificationState, e: Exception, clock: i64)
    ensures
        n.visible_at > clock ==> read_override_cleared(n, clock) == n
            && archive_overrides_cleared(n, clock) == n,
        n.visible_at <= clock ==> read_override_cleared(n, clock).unread_at is None
            && read_override_cleared(n, clock).read_at == n.read_at && read_override_cleared(
            n,
            clock,
        ).archived_at == n.archived_at && read_override_cleared(n, clock).unarchived_at
            == n.unarchived_at && read_override_cleared(n, clock).visible_at == n.visible_at,
        n.visible_at <= clock ==> archive_overrides_cleared(n, clock).archived_at is None
            && archive_overrides_cleared(n, clock).unarchived_at is None
            && archive_overrides_cleared(n, clock).read_at == n.read_at
            && archive_overrides_cleared(n, clock).unread_at == n.unread_at
            && archive_overrides_cleared(n, clock).visible_at == n.visible_at,
        exception_collected(None, clock) is None,
        e.broadcast_created_at > clock ==> exception_collected(Some(e), clock) == Some(e),
        e.broadcast_created_at <= clock ==> exception_collected(Some(e), clock) is None,
{
}

/// An id is cleared when everything is marked read exactly when it is that of
/// a row with an unread override that is visible up to the instant.
pub proof fn marking_all_read_clears_the_overrides(rows: Seq<Notification>, clock: i64, id: u128)
    ensures
        changed_rows(rows, |n: NotificationState| read_override_cleared(n, clock)).contains(id)
            <==> exists|i: int|
            0 <= i < rows.len() && (#[trigger] rows[i]).id == id && rows[i].state.unread_at is Some
                && rows[i].state.visible_at <= clock,
{
    let f = |n: NotificationState| read_override_cleared(n, clock);
    lemma_changed_rows(rows, f, id);
    if exists|i: int|
        0 <= i < rows.len() && (#[trigger] rows[i]).id == id && f(rows[i].state) != rows[i].state {
        let i = choose|i: int|
            0 <= i < rows.len() && (#[trigger] rows[i]).id == id && f(rows[i].state)
                != rows[i].state;
        assert(rows[i].id == id && rows[i].state.unread_at is Some && rows[i].state.visible_at
            <= clock);
    }
    if exists|i: int|
        0 <= i < rows.len() && (#[trigger] rows[i]).id == id && rows[i].state.unread_at is Some
            && rows[i].state.visible_at <= clock {
        let i = choose|i: int|
            0 <= i < rows.len() && (#[trigger] rows[i]).id == id && rows[i].state.unread_at is Some
                && rows[i].state.visible_at <= clock;
        assert(rows[i].id == id && f(rows[i].state) != rows[i].state);
    }
}

/// An id is cleared when everything is archived exactly when it is that of a
/// row with an explicit archive state that is visible up to the instant.
pub proof fn archiving_all_clears_the_overrides(rows: Seq<Notification>, clock: i64, id: u128)
    ensures
        changed_rows(rows, |n: NotificationState| archive_overrides_cleared(n, clock)).contains(id)
            <==> exists|i: int|
            0 <= i < rows.len() && (#[trigger] rows[i]).id == id && (
            rows[i].state.archived_at is Some || rows[i].state.unarchived_at is Some)
                && rows[i].state.visible_at <= clock,
{
    let f = |n: NotificationState| archive_overrides_cleared(n, clock);
    lemma_changed_rows(rows, f, id);
    if exists|i: int|
        0 <= i < rows.len() && (#[trigger] rows[i]).id == id && f(rows[i].state) != rows[i].state {
        let i = choose|i: int|
            0 <= i < rows.len() && (#[trigger] rows[i]).id == id && f(rows[i].state)
                != rows[i].state;
        assert(rows[i].id == id && (rows[i].state.archived_at is Some
            || rows[i].state.unarchived_at is Some) && rows[i].state.visible_at <= clock);
    }
    if exists|i: int|
        0 <= i < rows.len() && (#[trigger] rows[i]).id == id && (rows[i].state.archived_at is Some
            || rows[i].state.unarchived_at is Some) && rows[i].state.visible_at <= clock {
        let i = choose|i: int|
            0 <= i < rows.len() && (#[trigger] rows[i]).id == id && (
            rows[i].state.archived_at is Some || rows[i].state.unarchived_at is Some)
                && rows[i].state.visible_at <= clock;
        assert(rows[i].id == id && f(rows[i].state) != rows[i].state);
    }
}

proof fn lemma_changed_rows(
    rows: Seq<Notification>,
    f: spec_fn(NotificationState) -> NotificationState,
    id: u128,
)
    ensures
        changed_rows(rows, f).contains(id) <==> exists|i: int|
            0 <= i < rows.len() && (#[trigger] rows[i]).id == id && f(rows[i].state)
                != rows[i].state,
{
    let p = |n: Notification| f(n.state) != n.state;
    let kept = rows.filter(p);
    let ids = changed_rows(rows, f);
    if exists|i: int|
        0 <= i < rows.len() && (#[trigger] rows[i]).id == id && f(rows[i].state) != rows[i].state {
        let i = choose|i: int|
            0 <= i < rows.len() && (#[trigger] rows[i]).id == id && f(rows[i].state)
                != rows[i].state;
        rows.lemma_filter_contains(p, i);
        let k = choose|k: int| 0 <= k < kept.len() && kept[k] == rows[i];
        assert(ids[k] == id);
    }
    if ids.contains(id) {
        let k = choose|k: int| 0 <= k < ids.len() && ids[k] == id;
        rows.lemma_filter_pred(p, k);
        assert(kept.contains(kept[k]));
        rows.lemma_filter_contains_rev(p, kept[k]);
        let j = choose|j: int| 0 <= j < rows.len() && rows[j] == kept[k];
        assert(rows[j].id == id && f(rows[j].state) != rows[j].state);
    }
}

/// An exception row is dropped exactly when the moved watermark reaches its
/// broadcast.
pub proof fn what_a_moved_watermark_drops(
    exceptions: Seq<(u128, Exception)>,
    clock: i64,
    id: u128,
)
    ensures
        collected_rows(exceptions, clock).contains(id) <==> exists|i: int|
            0 <= i < exceptions.len() && (#[trigger] exceptions[i]).0 == id
                && exceptions[i].1.broadcast_created_at <= clock,
{
    let p = |e: (u128, Exception)| exception_collected(Some(e.1), clock) is None;
    let kept = exceptions.filter(p);
    let ids = collected_rows(exceptions, clock);
    if exists|i: int|
        0 <= i < exceptions.len() && (#[trigger] exceptions[i]).0 == id
            && exceptions[i].1.broadcast_created_at <= clock {
        let i = choose|i: int|
            0 <= i < exceptions.len() && (#[trigger] exceptions[i]).0 == id
                && exceptions[i].1.broadcast_created_at <= clock;
        exceptions.lemma_filter_contains(p, i);
        let k = choose|k: int| 0 <= k < kept.len() && kept[k] == exceptions[i];
        assert(ids[k] == id);
    }
    if ids.contains(id) {
        let k = choose|k: int| 0 <= k < ids.len() && ids[k] == id;
        exceptions.lemma_filter_pred(p, k);
        assert(kept.contains(kept[k]));
        exceptions.lemma_filter_contains_rev(p, kept[k]);
        let j = choose|j: int| 0 <= j < exceptions.len() && exceptions[j] == kept[k];
        assert(exceptions[j].0 == id && exceptions[j].1.broadcast_created_at <= clock);
    }
}

/// Writing what marking everything read returns, the counters, the cleared
/// overrides and the dropped exceptions, reads every item up to the instant,
/// leaves the state of every later item as it was and touches no archive
/// state.
pub proof fn what_marking_all_read_writes_reads_everything(
    st: InboxState,
    clock: i64,
    counters: Counters,
    cleared: Seq<u128>,
    dropped: Seq<u128>,
)
    requires
        st.wf(),
        clock >= st.scope.counters.read_watermark,
        counters == (Counters {
            read_watermark: clock,
            unread_direct_count: 0,
            updated_at: clock,
            ..st.scope.counters
        }),
        forall|i: int|
            0 <= i < st.notifications.len() ==> (cleared.contains(
                (#[trigger] st.notifications[i]).id,
            ) <==> st.notifications[i].state.unread_at is Some && st.notifications[i].state.visible_at <= clock),
        forall|i: int|
            0 <= i < st.broadcasts.len() ==> (dropped.contains((#[trigger] st.broadcasts[i]).id)
                <==> (st.broadcasts[i].state.read_exception matches Some(e)
                && e.broadcast_created_at <= clock)),
    ensures
        forall|i: int|
            0 <= i < st.notifications.len() ==> ({
                let n = (#[trigger] st.notifications[i]).state;
                let m = if cleared.contains(st.notifications[i].id) {
                    NotificationState { unread_at: None, ..n }
                } else {
                    n
                };
                &&& m.is_read(counters) == (n.visible_at <= clock || n.is_read(st.scope.counters))
                &&& m.is_archived(counters) == n.is_archived(st.scope.counters)
                &&& m == st.all_read(clock).notifications[i].state
            }),
        forall|i: int|
            0 <= i < st.broadcasts.len() ==> ({
                let b = (#[trigger] st.broadcasts[i]).state;
                let m = if dropped.contains(st.broadcasts[i].id) {
                    BroadcastState { read_exception: None, ..b }
                } else {
                    b
                };
                &&& m.is_read(counters) == (b.created_at <= clock || b.is_read(st.scope.counters))
                &&& m.is_archived(counters) == b.is_archived(st.scope.counters)
                &&& m == st.all_read(clock).broadcasts[i].state
            }),
{
    assert forall|i: int| 0 <= i < st.broadcasts.len() implies ({
        let b = (#[trigger] st.broadcasts[i]).state;
        let m = if dropped.contains(st.broadcasts[i].id) {
            BroadcastState { read_exception: None, ..b }
        } else {
            b
        };
        &&& m.is_read(counters) == (b.created_at <= clock || b.is_read(st.scope.counters))
        &&& m.is_archived(counters) == b.is_archived(st.scope.counters)
        &&& m == st.all_read(clock).broadcasts[i].state
    }) by {
        assert(st.broadcasts[i].state.wf());
    }
}

/// Writing what archiving everything returns, the counters, the cleared
/// overrides and the dropped exceptions, archives every item up to the
/// instant, leaves the state of every later item as it was and touches no read
/// state.
pub proof fn what_archiving_all_writes_archives_everything(
    st: InboxState,
    clock: i64,
    counters: Counters,
    cleared: Seq<u128>,
    dropped: Seq<u128>,
)
    requires
        st.wf(),
        clock >= st.scope.counters.archive_watermark,
        counters == (Counters {
            archive_watermark: clock,
            unread_direct_count: 0,
            updated_at: clock,
            ..st.scope.counters
        }),
        forall|i: int|
            0 <= i < st.notifications.len() ==> (cleared.contains(
                (#[trigger] st.notifications[i]).id,
            ) <==> (st.notifications[i].state.archived_at is Some
                || st.notifications[i].state.unarchived_at is Some) && st.notifications[i].state.visible_at <= clock),
        forall|i: int|
            0 <= i < st.broadcasts.len() ==> (dropped.contains((#[trigger] st.broadcasts[i]).id)
                <==> (st.broadcasts[i].state.archive_exception matches Some(e)
                && e.broadcast_created_at <= clock)),
    ensures
        forall|i: int|
            0 <= i < st.notifications.len() ==> ({
                let n = (#[trigger] st.notifications[i]).state;
                let m = if cleared.contains(st.notifications[i].id) {
                    NotificationState { archived_at: None, unarchived_at: None, ..n }
                } else {
                    n
                };
                &&& m.is_archived(counters) == (n.visible_at <= clock || n.is_archived(st.scope.counters))
                &&& m.is_read(counters) == n.is_read(st.scope.counters)
                &&& m == st.all_archived(clock).notifications[i].state
            }),
        forall|i: int|
            0 <= i < st.broadcasts.len() ==> ({
                let b = (#[trigger] st.broadcasts[i]).state;
                let m = if dropped.contains(st.broadcasts[i].id) {
                    BroadcastState { archive_exception: None, ..b }
                } else {
                    b
                };
                &&& m.is_archived(counters) == (b.created_at <= clock || b.is_archived(st.scope.counters))
                &&& m.is_read(counters) == b.is_read(st.scope.counters)
                &&& m == st.all_archived(clock).broadcasts[i].state
            }),
{
    assert forall|i: int| 0 <= i < st.broadcasts.len() implies ({
        let b = (#[trigger] st.broadcasts[i]).state;
        let m = if dropped.contains(st.broadcasts[i].id) {
            BroadcastState { archive_exception: None, ..b }
        } else {
            b
        };
        &&& m.is_archived(counters) == (b.created_at <= clock || b.is_archived(st.scope.counters))
        &&& m.is_read(counters) == b.is_read(st.scope.counters)
        &&& m == st.all_archived(clock).broadcasts[i].state
    }) by {
        assert(st.broadcasts[i].state.wf());
    }
}

/// A request that takes an item out of the count never leaves a negative
/// count: it is one less when the item was counted, and zero at least.
pub proof fn no_request_leaves_a_negative_count(s: Scope, n: Notification)
    ensures
        ({
            let left = s.counters.unread_direct_count - (if s.counts(n) {
                1int
            } else {
                0
            });
            &&& read_change(s, n) matches Some(c) ==> c.counters.unread_direct_count == if left > 0 {
                left
            } else {
                0
            }
            &&& archive_change(s, n) matches Some(c) ==> c.counters.unread_direct_count == if left
                > 0 {
                left
            } else {
                0
            }
        }),
{
}

} // verus!
