//! What holds of an inbox over all its operations: the maintained counters
//! stay in step with the items, and the counts agree with the list.

use vstd::prelude::*;
use super::actions::{
    archive_change, archive_overrides_cleared, archived_after, broadcast_change, counted_once_unarchived,
    counted_once_unread, counter_full, exception_collected, read_after, read_change,
    read_override_cleared, unarchive_change, unread_change, BroadcastChange, HintReason,
    NotificationChange,
};
use super::counts::{
    category_above, category_below, category_broadcast_above, category_broadcast_below,
    category_total, filter_total, unread_above, unread_below, unread_total, unseen_broadcast,
    unseen_total,
};
use super::filters::{distinct, filter_rows, InboxCountFilter};
use super::list::{broadcast_arm, direct_arm, lists_broadcast, lists_notification, ListWindow};
use super::rows::{is_pending, Broadcast, BroadcastState, Counters, Notification, Scope};
use crate::tally::{
    lemma_tally_none, lemma_tally_same, lemma_tally_some, lemma_tally_split, lemma_tally_update, tally,
};

verus! {

/// One subscriber's inbox: the scope and every item of both sources.
pub struct InboxState {
    pub scope: Scope,
    pub notifications: Seq<Notification>,
    pub broadcasts: Seq<Broadcast>,
}

/// Whether the maintained unseen counter holds one for `n`: delivered, not
/// muted, above the seen watermark.
pub open spec fn counts_unseen(s: Scope, n: Notification) -> bool {
    &&& !is_pending(s.deliver_jobs@, n.id)
    &&& !s.mutes(n.category@)
    &&& n.state.visible_at > s.counters.seen_watermark
}

impl InboxState {
    /// Exceptions belong to their broadcasts.
    pub open spec fn wf(self) -> bool {
        forall|i: int|
            0 <= i < self.broadcasts.len() ==> (#[trigger] self.broadcasts[i]).state.wf()
    }

    /// The maintained counters hold exactly the items they should, what is not
    /// visible yet is still owned by a delivery, and exceptions belong to
    /// their broadcasts.
    pub open spec fn in_step(self) -> bool {
        &&& self.scope.counters.unread_direct_count == tally(
            self.notifications,
            |n: Notification| self.scope.counts(n),
        )
        &&& self.scope.counters.unseen_direct_count == tally(
            self.notifications,
            |n: Notification| counts_unseen(self.scope, n),
        )
        &&& forall|i: int|
            0 <= i < self.notifications.len() ==> is_pending(
                self.scope.deliver_jobs@,
                (#[trigger] self.notifications[i]).id,
            ) || self.scope.shows_notification(self.notifications[i])
        &&& self.wf()
    }

    /// After a change to notification `i` was written.
    pub open spec fn notification_changed(self, i: int, change: Option<NotificationChange>) -> Self {
        match change {
            None => self,
            Some(c) => InboxState {
                scope: Scope { counters: c.counters, ..self.scope },
                notifications: self.notifications.update(
                    i,
                    Notification { state: c.state, ..self.notifications[i] },
                ),
                ..self
            },
        }
    }

    /// After a read exception for broadcast `i` was written.
    pub open spec fn read_exception_changed(self, i: int, change: Option<BroadcastChange>) -> Self {
        match change {
            None => self,
            Some(c) => InboxState {
                scope: Scope { counters: c.counters, ..self.scope },
                broadcasts: self.broadcasts.update(
                    i,
                    Broadcast {
                        state: BroadcastState {
                            read_exception: c.exception,
                            ..self.broadcasts[i].state
                        },
                        ..self.broadcasts[i]
                    },
                ),
                ..self
            },
        }
    }

    /// After an archive exception for broadcast `i` was written.
    pub open spec fn archive_exception_changed(
        self,
        i: int,
        change: Option<BroadcastChange>,
    ) -> Self {
        match change {
            None => self,
            Some(c) => InboxState {
                scope: Scope { counters: c.counters, ..self.scope },
                broadcasts: self.broadcasts.update(
                    i,
                    Broadcast {
                        state: BroadcastState {
                            archive_exception: c.exception,
                            ..self.broadcasts[i].state
                        },
                        ..self.broadcasts[i]
                    },
                ),
                ..self
            },
        }
    }

    /// After everything was marked read at `clock`.
    pub open spec fn all_read(self, clock: i64) -> Self {
        InboxState {
            scope: Scope {
                counters: Counters {
                    read_watermark: clock,
                    unread_direct_count: 0,
                    updated_at: clock,
                    ..self.scope.counters
                },
                ..self.scope
            },
            notifications: self.notifications.map_values(
                |n: Notification| Notification { state: read_override_cleared(n.state, clock), ..n },
            ),
            broadcasts: self.broadcasts.map_values(
                |b: Broadcast|
                    Broadcast {
                        state: BroadcastState {
                            read_exception: exception_collected(b.state.read_exception, clock),
                            ..b.state
                        },
                        ..b
                    },
            ),
        }
    }

    /// After everything was archived at `clock`.
    pub open spec fn all_archived(self, clock: i64) -> Self {
        InboxState {
            scope: Scope {
                counters: Counters {
                    archive_watermark: clock,
                    unread_direct_count: 0,
                    updated_at: clock,
                    ..self.scope.counters
                },
                ..self.scope
            },
            notifications: self.notifications.map_values(
                |n: Notification|
                    Notification { state: archive_overrides_cleared(n.state, clock), ..n },
            ),
            broadcasts: self.broadcasts.map_values(
                |b: Broadcast|
                    Broadcast {
                        state: BroadcastState {
                            archive_exception: exception_collected(
                                b.state.archive_exception,
                                clock,
                            ),
                            ..b.state
                        },
                        ..b
                    },
            ),
        }
    }

    /// After everything was marked seen at `clock`.
    pub open spec fn all_seen(self, clock: i64) -> Self {
        InboxState {
            scope: Scope {
                counters: Counters {
                    seen_watermark: clock,
                    unseen_direct_count: 0,
                    updated_at: clock,
                    ..self.scope.counters
                },
                ..self.scope
            },
            ..self
        }
    }

    /// The same inbox at another instant.
    pub open spec fn at(self, now: i64) -> Self {
        InboxState { scope: Scope { now, ..self.scope }, ..self }
    }
}

/// A change to one notification keeps the counters in step when it moves the
/// counter by what it does to the item.
proof fn lemma_change_in_step(st: InboxState, i: int, c: NotificationChange)
    requires
        st.in_step(),
        0 <= i < st.notifications.len(),
        c.state.visible_at == st.notifications[i].state.visible_at,
        c.counters == (Counters {
            unread_direct_count: c.counters.unread_direct_count,
            updated_at: c.counters.updated_at,
            ..st.scope.counters
        }),
        ({
            let n = st.notifications[i];
            let next = Notification { state: c.state, ..n };
            c.counters.unread_direct_count + (if st.scope.counts(n) { 1int } else { 0 })
                == st.scope.counters.unread_direct_count + (if st.scope.counts(next) {
                1int
            } else {
                0
            })
        }),
    ensures
        st.notification_changed(i, Some(c)).in_step(),
{
    let after = st.notification_changed(i, Some(c));
    let n = st.notifications[i];
    let next = Notification { state: c.state, ..n };
    let p = |x: Notification| st.scope.counts(x);
    let q = |x: Notification| counts_unseen(st.scope, x);
    lemma_tally_update(st.notifications, p, i, next);
    lemma_tally_update(st.notifications, q, i, next);
    let pa = |x: Notification| after.scope.counts(x);
    let qa = |x: Notification| counts_unseen(after.scope, x);
    assert forall|k: int| 0 <= k < after.notifications.len() implies p(
        #[trigger] after.notifications[k],
    ) == pa(after.notifications[k]) && q(after.notifications[k]) == qa(after.notifications[k]) by {
    }
    lemma_tally_same(after.notifications, p, after.notifications, pa);
    lemma_tally_same(after.notifications, q, after.notifications, qa);
    assert forall|k: int| 0 <= k < after.notifications.len() implies is_pending(
        after.scope.deliver_jobs@,
        (#[trigger] after.notifications[k]).id,
    ) || after.scope.shows_notification(after.notifications[k]) by {
        assert(is_pending(st.scope.deliver_jobs@, st.notifications[k].id)
            || st.scope.shows_notification(st.notifications[k]));
    }
}

/// Marking a notification read keeps the maintained counters in step.
pub proof fn marking_read_keeps_the_counters_in_step(st: InboxState, i: int)
    requires
        st.in_step(),
        0 <= i < st.notifications.len(),
    ensures
        st.notification_changed(i, read_change(st.scope, st.notifications[i])).in_step(),
{
    let n = st.notifications[i];
    if let Some(c) = read_change(st.scope, n) {
        let p = |x: Notification| st.scope.counts(x);
        if st.scope.counts(n) {
            lemma_tally_some(st.notifications, p, i);
        }
        lemma_change_in_step(st, i, c);
    }
}

/// Marking a notification unread keeps the maintained counters in step.
pub proof fn marking_unread_keeps_the_counters_in_step(st: InboxState, i: int)
    requires
        st.in_step(),
        0 <= i < st.notifications.len(),
        !counter_full(
            st.scope,
            unread_change(st.scope, st.notifications[i]),
            counted_once_unread(st.scope, st.notifications[i]),
        ),
    ensures
        st.notification_changed(i, unread_change(st.scope, st.notifications[i])).in_step(),
{
    if let Some(c) = unread_change(st.scope, st.notifications[i]) {
        lemma_change_in_step(st, i, c);
    }
}

/// Archiving a notification keeps the maintained counters in step.
pub proof fn archiving_keeps_the_counters_in_step(st: InboxState, i: int)
    requires
        st.in_step(),
        0 <= i < st.notifications.len(),
    ensures
        st.notification_changed(i, archive_change(st.scope, st.notifications[i])).in_step(),
{
    let n = st.notifications[i];
    if let Some(c) = archive_change(st.scope, n) {
        let p = |x: Notification| st.scope.counts(x);
        if st.scope.counts(n) {
            lemma_tally_some(st.notifications, p, i);
        }
        lemma_change_in_step(st, i, c);
    }
}

/// Unarchiving a notification keeps the maintained counters in step.
pub proof fn unarchiving_keeps_the_counters_in_step(st: InboxState, i: int)
    requires
        st.in_step(),
        0 <= i < st.notifications.len(),
        !counter_full(
            st.scope,
            unarchive_change(st.scope, st.notifications[i]),
            counted_once_unarchived(st.scope, st.notifications[i]),
        ),
    ensures
        st.notification_changed(i, unarchive_change(st.scope, st.notifications[i])).in_step(),
{
    if let Some(c) = unarchive_change(st.scope, st.notifications[i]) {
        lemma_change_in_step(st, i, c);
    }
}

/// Only the change instant of the counters moves.
proof fn lemma_counters_touched(st: InboxState, after: InboxState)
    requires
        st.in_step(),
        after.scope == (Scope {
            counters: Counters {
                updated_at: after.scope.counters.updated_at,
                ..st.scope.counters
            },
            ..st.scope
        }),
        after.notifications == st.notifications,
        forall|i: int|
            0 <= i < after.broadcasts.len() ==> (#[trigger] after.broadcasts[i]).state.wf(),
    ensures
        after.in_step(),
{
    let p = |x: Notification| st.scope.counts(x);
    let q = |x: Notification| counts_unseen(st.scope, x);
    let pa = |x: Notification| after.scope.counts(x);
    let qa = |x: Notification| counts_unseen(after.scope, x);
    lemma_tally_same(st.notifications, p, after.notifications, pa);
    lemma_tally_same(st.notifications, q, after.notifications, qa);
    assert forall|k: int| 0 <= k < after.notifications.len() implies is_pending(
        after.scope.deliver_jobs@,
        (#[trigger] after.notifications[k]).id,
    ) || after.scope.shows_notification(after.notifications[k]) by {
        assert(is_pending(st.scope.deliver_jobs@, st.notifications[k].id)
            || st.scope.shows_notification(st.notifications[k]));
    }
}

/// Marking a broadcast read (`value`) or unread keeps the maintained counters
/// in step.
pub proof fn marking_a_broadcast_keeps_the_counters_in_step(st: InboxState, i: int, value: bool)
    requires
        st.in_step(),
        0 <= i < st.broadcasts.len(),
    ensures
        st.read_exception_changed(
            i,
            broadcast_change(
                st.scope,
                st.broadcasts[i].state.read_exception,
                read_after(st.scope, st.broadcasts[i].state, value),
                HintReason::ReadState,
            ),
        ).in_step(),
{
    let b = st.broadcasts[i].state;
    let change = broadcast_change(
        st.scope,
        b.read_exception,
        read_after(st.scope, b, value),
        HintReason::ReadState,
    );
    if change is Some {
        lemma_counters_touched(st, st.read_exception_changed(i, change));
    }
}

/// Archiving (`value`) or unarchiving a broadcast keeps the maintained
/// counters in step.
pub proof fn archiving_a_broadcast_keeps_the_counters_in_step(st: InboxState, i: int, value: bool)
    requires
        st.in_step(),
        0 <= i < st.broadcasts.len(),
    ensures
        st.archive_exception_changed(
            i,
            broadcast_change(
                st.scope,
                st.broadcasts[i].state.archive_exception,
                archived_after(st.scope, st.broadcasts[i].state, value),
                HintReason::ArchiveState,
            ),
        ).in_step(),
{
    let b = st.broadcasts[i].state;
    let change = broadcast_change(
        st.scope,
        b.archive_exception,
        archived_after(st.scope, b, value),
        HintReason::ArchiveState,
    );
    if change is Some {
        lemma_counters_touched(st, st.archive_exception_changed(i, change));
    }
}

/// Marking everything read, at an instant no earlier than now, keeps the
/// maintained counters in step: every delivered item is read.
pub proof fn marking_all_read_keeps_the_counters_in_step(st: InboxState, clock: i64)
    requires
        st.in_step(),
        clock >= st.scope.now,
    ensures
        st.all_read(clock).in_step(),
{
    let after = st.all_read(clock);
    let q = |x: Notification| counts_unseen(st.scope, x);
    let pa = |x: Notification| after.scope.counts(x);
    let qa = |x: Notification| counts_unseen(after.scope, x);
    assert forall|k: int| 0 <= k < st.notifications.len() implies !pa(
        #[trigger] after.notifications[k],
    ) && q(st.notifications[k]) == qa(after.notifications[k]) && (is_pending(
        after.scope.deliver_jobs@,
        after.notifications[k].id,
    ) || after.scope.shows_notification(after.notifications[k])) by {
        let n = st.notifications[k];
        assert(is_pending(st.scope.deliver_jobs@, n.id) || st.scope.shows_notification(n));
    }
    lemma_tally_none(after.notifications, pa);
    assert forall|k: int| 0 <= k < st.notifications.len() implies q(#[trigger] st.notifications[k])
        == qa(after.notifications[k]) by {
        assert(q(st.notifications[k]) == qa(after.notifications[k]));
    }
    lemma_tally_same(st.notifications, q, after.notifications, qa);
    assert forall|k: int| 0 <= k < after.broadcasts.len() implies (
    #[trigger] after.broadcasts[k]).state.wf() by {
        assert(st.broadcasts[k].state.wf());
    }
}

/// Archiving everything, at an instant no earlier than now, keeps the
/// maintained counters in step: every delivered item is archived.
pub proof fn archiving_all_keeps_the_counters_in_step(st: InboxState, clock: i64)
    requires
        st.in_step(),
        clock >= st.scope.now,
    ensures
        st.all_archived(clock).in_step(),
{
    let after = st.all_archived(clock);
    let q = |x: Notification| counts_unseen(st.scope, x);
    let pa = |x: Notification| after.scope.counts(x);
    let qa = |x: Notification| counts_unseen(after.scope, x);
    assert forall|k: int| 0 <= k < st.notifications.len() implies !pa(
        #[trigger] after.notifications[k],
    ) && q(st.notifications[k]) == qa(after.notifications[k]) && (is_pending(
        after.scope.deliver_jobs@,
        after.notifications[k].id,
    ) || after.scope.shows_notification(after.notifications[k])) by {
        let n = st.notifications[k];
        assert(is_pending(st.scope.deliver_jobs@, n.id) || st.scope.shows_notification(n));
    }
    lemma_tally_none(after.notifications, pa);
    assert forall|k: int| 0 <= k < st.notifications.len() implies q(#[trigger] st.notifications[k])
        == qa(after.notifications[k]) by {
        assert(q(st.notifications[k]) == qa(after.notifications[k]));
    }
    lemma_tally_same(st.notifications, q, after.notifications, qa);
    assert forall|k: int| 0 <= k < after.broadcasts.len() implies (
    #[trigger] after.broadcasts[k]).state.wf() by {
        assert(st.broadcasts[k].state.wf());
    }
}

/// Marking everything seen, at an instant no earlier than now, keeps the
/// maintained counters in step: nothing delivered is unseen.
pub proof fn marking_all_seen_keeps_the_counters_in_step(st: InboxState, clock: i64)
    requires
        st.in_step(),
        clock >= st.scope.now,
    ensures
        st.all_seen(clock).in_step(),
{
    let after = st.all_seen(clock);
    let p = |x: Notification| st.scope.counts(x);
    let pa = |x: Notification| after.scope.counts(x);
    let qa = |x: Notification| counts_unseen(after.scope, x);
    assert forall|k: int| 0 <= k < st.notifications.len() implies !qa(
        #[trigger] after.notifications[k],
    ) && p(st.notifications[k]) == pa(after.notifications[k]) && (is_pending(
        after.scope.deliver_jobs@,
        after.notifications[k].id,
    ) || after.scope.shows_notification(after.notifications[k])) by {
        let n = st.notifications[k];
        assert(is_pending(st.scope.deliver_jobs@, n.id) || st.scope.shows_notification(n));
    }
    lemma_tally_none(after.notifications, qa);
    lemma_tally_same(st.notifications, p, after.notifications, pa);
}

/// The passing of time keeps the maintained counters in step: a scheduled item
/// that becomes visible is still owned by its delivery.
pub proof fn time_passing_keeps_the_counters_in_step(st: InboxState, now: i64)
    requires
        st.in_step(),
        now >= st.scope.now,
    ensures
        st.at(now).in_step(),
{
    let after = st.at(now);
    let p = |x: Notification| st.scope.counts(x);
    let q = |x: Notification| counts_unseen(st.scope, x);
    let pa = |x: Notification| after.scope.counts(x);
    let qa = |x: Notification| counts_unseen(after.scope, x);
    lemma_tally_same(st.notifications, p, after.notifications, pa);
    lemma_tally_same(st.notifications, q, after.notifications, qa);
    assert forall|k: int| 0 <= k < after.notifications.len() implies is_pending(
        after.scope.deliver_jobs@,
        (#[trigger] after.notifications[k]).id,
    ) || after.scope.shows_notification(after.notifications[k]) by {
        assert(is_pending(st.scope.deliver_jobs@, st.notifications[k].id)
            || st.scope.shows_notification(st.notifications[k]));
    }
}

proof fn lemma_filter_len<A>(s: Seq<A>, p: spec_fn(A) -> bool)
    ensures
        s.filter(p).len() == tally(s, p),
    decreases s.len(),
{
    reveal(Seq::filter);
    if s.len() > 0 {
        lemma_filter_len(s.drop_last(), p);
    }
}

/// The window takes in every item.
pub open spec fn window_covers(st: InboxState, w: ListWindow) -> bool {
    &&& forall|i: int|
        0 <= i < st.notifications.len() ==> w.below(
            (#[trigger] st.notifications[i]).state.visible_at,
            st.notifications[i].id,
        )
    &&& forall|i: int|
        0 <= i < st.broadcasts.len() ==> w.below(
            (#[trigger] st.broadcasts[i]).state.created_at,
            st.broadcasts[i].id,
        )
}

/// A notification that the list shows although its delivery, and with it its
/// counter bump, still has to run.
pub open spec fn listed_before_delivery(s: Scope, w: ListWindow) -> spec_fn(Notification) -> bool {
    |n: Notification| lists_notification(s, w, n) && is_pending(s.deliver_jobs@, n.id)
}

/// An unseen notification that is visible although its delivery still has to
/// run.
pub open spec fn unseen_before_delivery(s: Scope) -> spec_fn(Notification) -> bool {
    |n: Notification| unseen_item(s, n) && is_pending(s.deliver_jobs@, n.id)
}

/// Visible, unmuted and above the seen watermark.
pub open spec fn unseen_item(s: Scope, n: Notification) -> bool {
    &&& s.shows_notification(n)
    &&& !s.mutes(n.category@)
    &&& n.state.visible_at > s.counters.seen_watermark
}

/// Above or below the watermark, the two broadcast terms together tally the
/// unread broadcasts of the inbox.
proof fn lemma_broadcast_terms(st: InboxState, w: ListWindow, category: Option<Seq<char>>)
    requires
        st.wf(),
        window_covers(st, w),
        w.filter is Unread,
    ensures
        tally(
            st.broadcasts,
            |b: Broadcast| (category is None || b.category@ == category->0) && unread_above(st.scope, b),
        ) + tally(
            st.broadcasts,
            |b: Broadcast| (category is None || b.category@ == category->0) && unread_below(st.scope, b),
        ) == tally(
            st.broadcasts,
            |b: Broadcast|
                (category is None || b.category@ == category->0) && lists_broadcast(st.scope, w, b),
        ),
{
    let s = st.scope;
    let p = |b: Broadcast| (category is None || b.category@ == category->0) && unread_above(s, b);
    let q = |b: Broadcast| (category is None || b.category@ == category->0) && unread_below(s, b);
    let e = |b: Broadcast|
        (category is None || b.category@ == category->0) && lists_broadcast(s, w, b);
    assert forall|i: int| 0 <= i < st.broadcasts.len() implies !(p(#[trigger] st.broadcasts[i])
        && q(st.broadcasts[i])) && e(st.broadcasts[i]) == (p(st.broadcasts[i]) || q(
        st.broadcasts[i],
    )) by {
        assert(st.broadcasts[i].state.wf());
        assert(w.below(st.broadcasts[i].state.created_at, st.broadcasts[i].id));
    }
    lemma_tally_split(st.broadcasts, p, q, e);
}

/// The unread count agrees with the list: the unread items that it shows, over
/// both sources and under mutes, are those that are counted and those whose
/// delivery still has to run.
pub proof fn unread_count_agrees_with_the_list(
    st: InboxState,
    w: ListWindow,
    notifications: Seq<(Notification, serde_json::Value)>,
    broadcasts: Seq<(Broadcast, serde_json::Value)>,
)
    requires
        st.in_step(),
        notifications.map_values(|n: (Notification, serde_json::Value)| n.0) == st.notifications,
        broadcasts.map_values(|b: (Broadcast, serde_json::Value)| b.0) == st.broadcasts,
        window_covers(st, w),
        w.filter is Unread,
    ensures
        unread_total(st.scope, st.broadcasts) + tally(
            st.notifications,
            listed_before_delivery(st.scope, w),
        ) == direct_arm(st.scope, w, notifications).len() + broadcast_arm(
            st.scope,
            w,
            broadcasts,
        ).len(),
{
    let s = st.scope;
    let p = |n: Notification| s.counts(n);
    let early = listed_before_delivery(s, w);
    let either = |n: Notification| lists_notification(s, w, n);
    assert forall|i: int| 0 <= i < st.notifications.len() implies !(p(#[trigger] st.notifications[i])
        && early(st.notifications[i])) && either(st.notifications[i]) == (p(st.notifications[i])
        || early(st.notifications[i])) by {
        let n = st.notifications[i];
        assert(is_pending(s.deliver_jobs@, n.id) || s.shows_notification(n));
        assert(w.below(n.state.visible_at, n.id));
    }
    lemma_tally_split(st.notifications, p, early, either);
    let listed = |n: (Notification, serde_json::Value)| lists_notification(s, w, n.0);
    assert forall|i: int| 0 <= i < st.notifications.len() implies either(
        #[trigger] st.notifications[i],
    ) == listed(notifications[i]) by {
        assert(notifications.map_values(|n: (Notification, serde_json::Value)| n.0)[i]
            == notifications[i].0);
    }
    lemma_tally_same(st.notifications, either, notifications, listed);
    lemma_filter_len(notifications, listed);
    let above = |b: Broadcast| unread_above(s, b);
    let below = |b: Broadcast| unread_below(s, b);
    let any: Option<Seq<char>> = None;
    let above_any = |b: Broadcast| (any is None || b.category@ == any->0) && unread_above(s, b);
    let below_any = |b: Broadcast| (any is None || b.category@ == any->0) && unread_below(s, b);
    let shown_any = |b: Broadcast|
        (any is None || b.category@ == any->0) && lists_broadcast(s, w, b);
    lemma_broadcast_terms(st, w, any);
    lemma_tally_same(st.broadcasts, above, st.broadcasts, above_any);
    lemma_tally_same(st.broadcasts, below, st.broadcasts, below_any);
    let shown = |b: (Broadcast, serde_json::Value)| lists_broadcast(s, w, b.0);
    assert forall|i: int| 0 <= i < st.broadcasts.len() implies shown_any(
        #[trigger] st.broadcasts[i],
    ) == shown(broadcasts[i]) by {
        assert(broadcasts.map_values(|b: (Broadcast, serde_json::Value)| b.0)[i]
            == broadcasts[i].0);
    }
    lemma_tally_same(st.broadcasts, shown_any, broadcasts, shown);
    lemma_filter_len(broadcasts, shown);
}

/// The unread count equals the number of unread items that the list shows once
/// everything that it shows has been delivered.
pub proof fn unread_count_equals_visible_unread_items(
    st: InboxState,
    w: ListWindow,
    notifications: Seq<(Notification, serde_json::Value)>,
    broadcasts: Seq<(Broadcast, serde_json::Value)>,
)
    requires
        st.in_step(),
        notifications.map_values(|n: (Notification, serde_json::Value)| n.0) == st.notifications,
        broadcasts.map_values(|b: (Broadcast, serde_json::Value)| b.0) == st.broadcasts,
        window_covers(st, w),
        w.filter is Unread,
        forall|i: int|
            0 <= i < st.notifications.len() ==> !listed_before_delivery(st.scope, w)(
                #[trigger] st.notifications[i],
            ),
    ensures
        unread_total(st.scope, st.broadcasts) == direct_arm(st.scope, w, notifications).len()
            + broadcast_arm(st.scope, w, broadcasts).len(),
{
    unread_count_agrees_with_the_list(st, w, notifications, broadcasts);
    lemma_tally_none(st.notifications, listed_before_delivery(st.scope, w));
}

/// The unseen count agrees with the items: the visible, unmuted items above
/// the seen watermark, over both sources, are those that are counted and those
/// whose delivery still has to run. Archiving is no part of it.
pub proof fn unseen_count_agrees_with_the_items(st: InboxState)
    requires
        st.in_step(),
    ensures
        unseen_total(st.scope, st.broadcasts) + tally(
            st.notifications,
            unseen_before_delivery(st.scope),
        ) == tally(st.notifications, |n: Notification| unseen_item(st.scope, n)) + tally(
            st.broadcasts,
            |b: Broadcast| unseen_broadcast(st.scope, b),
        ),
{
    let s = st.scope;
    let q = |n: Notification| counts_unseen(s, n);
    let early = unseen_before_delivery(s);
    let shown = |n: Notification| unseen_item(s, n);
    assert forall|i: int| 0 <= i < st.notifications.len() implies !(q(#[trigger] st.notifications[i])
        && early(st.notifications[i])) && shown(st.notifications[i]) == (q(st.notifications[i])
        || early(st.notifications[i])) by {
        let n = st.notifications[i];
        assert(is_pending(s.deliver_jobs@, n.id) || s.shows_notification(n));
    }
    lemma_tally_split(st.notifications, q, early, shown);
}

/// The unread count of one category equals the number of unread items of that
/// category that the list shows, over both sources.
pub proof fn category_count_equals_visible_unread_items(
    st: InboxState,
    w: ListWindow,
    category: Seq<char>,
)
    requires
        st.wf(),
        window_covers(st, w),
        w.filter is Unread,
    ensures
        category_total(st.scope, st.notifications, st.broadcasts, category) == tally(
            st.notifications,
            |n: Notification| n.category@ == category && lists_notification(st.scope, w, n),
        ) + tally(
            st.broadcasts,
            |b: Broadcast| b.category@ == category && lists_broadcast(st.scope, w, b),
        ),
{
    let s = st.scope;
    let p = category_above(s, category);
    let q = category_below(s, category);
    let e = |n: Notification| n.category@ == category && lists_notification(s, w, n);
    assert forall|i: int| 0 <= i < st.notifications.len() implies !(p(
        #[trigger] st.notifications[i],
    ) && q(st.notifications[i])) && e(st.notifications[i]) == (p(st.notifications[i]) || q(
        st.notifications[i],
    )) by {
        assert(w.below(st.notifications[i].state.visible_at, st.notifications[i].id));
    }
    lemma_tally_split(st.notifications, p, q, e);
    let one = Some(category);
    lemma_broadcast_terms(st, w, one);
    let a = category_broadcast_above(s, category);
    let a1 = |b: Broadcast| (one is None || b.category@ == one->0) && unread_above(s, b);
    let c = category_broadcast_below(s, category);
    let c1 = |b: Broadcast| (one is None || b.category@ == one->0) && unread_below(s, b);
    let d = |b: Broadcast| b.category@ == category && lists_broadcast(s, w, b);
    let d1 = |b: Broadcast| (one is None || b.category@ == one->0) && lists_broadcast(s, w, b);
    lemma_tally_same(st.broadcasts, a, st.broadcasts, a1);
    lemma_tally_same(st.broadcasts, c, st.broadcasts, c1);
    lemma_tally_same(st.broadcasts, d, st.broadcasts, d1);
}

/// Within one filter no category is named twice.
pub open spec fn names_once(rows: Seq<(int, Seq<char>)>, f: int) -> bool {
    forall|i: int, j: int|
        0 <= i < rows.len() && 0 <= j < rows.len() && (#[trigger] rows[i]).0 == f && (
        #[trigger] rows[j]).0 == f && rows[i].1 == rows[j].1 ==> i == j
}

/// The unread notifications of any category that `rows` name for filter `f`.
pub open spec fn unread_in_filter(
    s: Scope,
    w: ListWindow,
    rows: Seq<(int, Seq<char>)>,
    f: int,
) -> spec_fn(Notification) -> bool {
    |n: Notification| rows.contains((f, n.category@)) && lists_notification(s, w, n)
}

/// The unread broadcasts of any category that `rows` name for filter `f`.
pub open spec fn unread_broadcast_in_filter(
    s: Scope,
    w: ListWindow,
    rows: Seq<(int, Seq<char>)>,
    f: int,
) -> spec_fn(Broadcast) -> bool {
    |b: Broadcast| rows.contains((f, b.category@)) && lists_broadcast(s, w, b)
}

/// Categories within one filter use OR semantics: the filter's count equals
/// the number of unread items, over both sources, that the list shows and
/// whose category the filter names. No item counts twice.
pub proof fn filter_count_equals_visible_unread_items(
    st: InboxState,
    w: ListWindow,
    rows: Seq<(int, Seq<char>)>,
    f: int,
)
    requires
        st.wf(),
        window_covers(st, w),
        w.filter is Unread,
        names_once(rows, f),
    ensures
        filter_total(st.scope, st.notifications, st.broadcasts, rows, f) == tally(
            st.notifications,
            unread_in_filter(st.scope, w, rows, f),
        ) + tally(st.broadcasts, unread_broadcast_in_filter(st.scope, w, rows, f)),
    decreases rows.len(),
{
    let s = st.scope;
    let either = unread_in_filter(s, w, rows, f);
    let either_b = unread_broadcast_in_filter(s, w, rows, f);
    if rows.len() == 0 {
        lemma_tally_none(st.notifications, either);
        lemma_tally_none(st.broadcasts, either_b);
    } else {
        let short = rows.drop_last();
        let (g, category) = rows.last();
        assert forall|i: int, j: int|
            0 <= i < short.len() && 0 <= j < short.len() && (#[trigger] short[i]).0 == f && (
            #[trigger] short[j]).0 == f && short[i].1 == short[j].1 implies i == j by {
            assert(rows[i] == short[i] && rows[j] == short[j]);
        }
        filter_count_equals_visible_unread_items(st, w, short, f);
        let p = unread_in_filter(s, w, short, f);
        let p_b = unread_broadcast_in_filter(s, w, short, f);
        assert forall|c: Seq<char>| #[trigger] rows.contains((f, c)) == (short.contains((f, c)) || (
        g == f && category == c)) by {
            if rows.contains((f, c)) {
                let i = choose|i: int| 0 <= i < rows.len() && rows[i] == (f, c);
                if i < short.len() {
                    assert(short[i] == (f, c));
                }
            }
            if short.contains((f, c)) {
                let i = choose|i: int| 0 <= i < short.len() && short[i] == (f, c);
                assert(rows[i] == (f, c));
            }
            assert(rows[rows.len() - 1] == (g, category));
        }
        if g == f {
            assert(!short.contains((f, category))) by {
                if short.contains((f, category)) {
                    let i = choose|i: int| 0 <= i < short.len() && short[i] == (f, category);
                    assert(rows[i] == (f, category) && rows[rows.len() - 1] == (f, category));
                }
            }
            category_count_equals_visible_unread_items(st, w, category);
            let q = |n: Notification| n.category@ == category && lists_notification(s, w, n);
            let q_b = |b: Broadcast| b.category@ == category && lists_broadcast(s, w, b);
            lemma_tally_split(st.notifications, p, q, either);
            lemma_tally_split(st.broadcasts, p_b, q_b, either_b);
        } else {
            lemma_tally_same(st.notifications, p, st.notifications, either);
            lemma_tally_same(st.broadcasts, p_b, st.broadcasts, either_b);
        }
    }
}

proof fn lemma_distinct(names: Seq<Seq<char>>)
    ensures
        distinct(names).no_duplicates(),
        forall|x: Seq<char>| #[trigger] distinct(names).contains(x) == names.contains(x),
    decreases names.len(),
{
    if names.len() > 0 {
        let short = names.drop_last();
        let last = names.last();
        lemma_distinct(short);
        assert(names =~= short.push(last));
        assert forall|x: Seq<char>| #[trigger] distinct(names).contains(x) == names.contains(x) by {
            assert(names.contains(x) <==> short.contains(x) || x == last) by {
                if short.contains(x) {
                    let i = choose|i: int| 0 <= i < short.len() && short[i] == x;
                    assert(names[i] == x);
                }
                assert(names[names.len() - 1] == last);
                if names.contains(x) && x != last {
                    let i = choose|i: int| 0 <= i < names.len() && names[i] == x;
                    assert(short[i] == x);
                }
            }
            let d = distinct(short);
            if !short.contains(last) {
                assert(distinct(names) == d.push(last));
                assert(d.push(last)[d.len() as int] == last);
                if d.contains(x) {
                    let i = choose|i: int| 0 <= i < d.len() && d[i] == x;
                    assert(d.push(last)[i] == x);
                }
                if d.push(last).contains(x) && x != last {
                    let i = choose|i: int| 0 <= i < d.push(last).len() && d.push(last)[i] == x;
                    assert(d[i] == x);
                }
            }
        }
        if !short.contains(last) {
            assert(!distinct(short).contains(last));
        }
    }
}

/// Normalizing keeps exactly the names that a filter has, each once.
pub proof fn normalizing_keeps_each_name_once(
    filters: Seq<InboxCountFilter>,
    n: int,
    f: int,
    name: Seq<char>,
)
    requires
        0 <= n <= filters.len(),
    ensures
        names_once(filter_rows(filters, n), f),
        filter_rows(filters, n).contains((f, name)) <==> 0 <= f < n && filters[f].names().contains(
            name,
        ),
    decreases n,
{
    if n > 0 {
        let short = filter_rows(filters, n - 1);
        let d = distinct(filters[n - 1].names());
        let more = d.map_values(|name: Seq<char>| (n - 1, name));
        let rows = filter_rows(filters, n);
        normalizing_keeps_each_name_once(filters, n - 1, f, name);
        lemma_distinct(filters[n - 1].names());
        assert forall|i: int| 0 <= i < short.len() implies (#[trigger] short[i]).0 < n - 1 by {
            normalizing_keeps_each_name_once(filters, n - 1, short[i].0, short[i].1);
            assert(short.contains((short[i].0, short[i].1)));
        }
        assert forall|i: int, j: int|
            0 <= i < rows.len() && 0 <= j < rows.len() && (#[trigger] rows[i]).0 == f && (
            #[trigger] rows[j]).0 == f && rows[i].1 == rows[j].1 implies i == j by {
            let k = short.len();
            if i < k && j < k {
                assert(short[i] == rows[i] && short[j] == rows[j]);
            } else if i >= k && j >= k {
                assert(rows[i].1 == d[i - k] && rows[j].1 == d[j - k]);
            } else if i < k {
                assert(short[i].0 < n - 1 && rows[j].0 == n - 1);
            } else {
                assert(short[j].0 < n - 1 && rows[i].0 == n - 1);
            }
        }
        if rows.contains((f, name)) {
            let i = choose|i: int| 0 <= i < rows.len() && rows[i] == (f, name);
            if i < short.len() {
                assert(short[i] == (f, name));
            } else {
                assert(d[i - short.len()] == name);
                assert(d.contains(name));
            }
        }
        if f == n - 1 && filters[f].names().contains(name) {
            assert(d.contains(name));
            let i = choose|i: int| 0 <= i < d.len() && d[i] == name;
            assert(rows[short.len() + i] == (f, name));
        }
        if short.contains((f, name)) {
            let i = choose|i: int| 0 <= i < short.len() && short[i] == (f, name);
            assert(rows[i] == (f, name));
        }
    }
}

} // verus!
