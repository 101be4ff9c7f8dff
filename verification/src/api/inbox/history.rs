//! What holds of an inbox whatever has happened to it: over any sequence of
//! arrivals, requests, jobs and preference changes, the counts agree with the
//! items that are shown.

use vstd::prelude::*;
use super::actions::{
    archive_change, archived_after, broadcast_change, counted_once_unarchived, counted_once_unread,
    counter_full, read_after, read_change, unarchive_change, unread_change, HintReason,
};
use super::counts::{unread_total, unseen_broadcast, unseen_total};
use super::laws::{
    archiving_a_broadcast_keeps_the_counters_in_step, archiving_all_keeps_the_counters_in_step,
    archiving_keeps_the_counters_in_step, counts_unseen, listed_before_delivery,
    marking_a_broadcast_keeps_the_counters_in_step, marking_all_read_keeps_the_counters_in_step,
    marking_all_seen_keeps_the_counters_in_step, marking_read_keeps_the_counters_in_step,
    marking_unread_keeps_the_counters_in_step, time_passing_keeps_the_counters_in_step,
    unarchiving_keeps_the_counters_in_step, unread_count_equals_visible_unread_items,
    unseen_before_delivery, unseen_count_agrees_with_the_items, unseen_item, window_covers,
    InboxState,
};
use super::list::ListWindow;
use super::pages::listed_rows;
use super::rows::{
    is_pending, Broadcast, BroadcastState, Counters, DeliverJob, Exception, Notification,
    NotificationState, Preference, Scope,
};
use crate::tally::{lemma_tally_differs_at, lemma_tally_none, lemma_tally_same, tally};

verus! {

/// One thing that happens to an inbox.
pub enum Step {
    /// A notification is created and visible at once.
    Created { item: Notification },
    /// A notification is created for a delivery that `jobs` hold from now on.
    Scheduled { item: Notification, jobs: Vec<DeliverJob> },
    /// Notification `i` is delivered; `jobs` are what is left to deliver.
    Delivered { i: int, jobs: Vec<DeliverJob> },
    /// A broadcast is created.
    Broadcasted { broadcast: Broadcast },
    /// Notification `i` is marked read.
    Read { i: int },
    /// Notification `i` is marked unread.
    Unread { i: int },
    /// Notification `i` is archived.
    Archived { i: int },
    /// Notification `i` is unarchived.
    Unarchived { i: int },
    /// Broadcast `i` is marked read (`value`) or unread.
    BroadcastRead { i: int, value: bool },
    /// Broadcast `i` is archived (`value`) or unarchived.
    BroadcastArchived { i: int, value: bool },
    /// Everything is marked read.
    AllRead { clock: i64 },
    /// Everything is archived.
    AllArchived { clock: i64 },
    /// Everything is marked seen.
    AllSeen { clock: i64 },
    /// What is read of the items up to `as_of` is archived.
    ReadArchived { as_of: i64, clock: i64 },
    /// The preferences are replaced and the counters counted anew.
    PreferencesSet { preferences: Vec<Preference> },
    /// Time passes.
    Waited { now: i64 },
}

/// No request has touched the item yet.
pub open spec fn untouched(n: NotificationState) -> bool {
    n.read_at is None && n.unread_at is None && n.archived_at is None && n.unarchived_at is None
}

/// One more when `counted`.
pub open spec fn bumped(count: i32, counted: bool) -> i32 {
    (count + if counted { 1int } else { 0 }) as i32
}

/// `n` once what is read up to `as_of` was archived at `clock`.
pub open spec fn read_item_archived(s: Scope, n: Notification, as_of: i64, clock: i64) -> Notification {
    if n.state.visible_at <= as_of && n.state.is_read(s.counters) && !n.state.is_archived(
        s.counters,
    ) {
        Notification {
            state: NotificationState { archived_at: Some(clock), unarchived_at: None, ..n.state },
            ..n
        }
    } else {
        n
    }
}

/// `b` once what is read up to `as_of` was archived.
pub open spec fn read_broadcast_archived(s: Scope, b: Broadcast, as_of: i64) -> Broadcast {
    if s.shows_broadcast(b.state) && b.state.created_at <= as_of && b.state.is_read(s.counters)
        && !b.state.is_archived(s.counters) {
        Broadcast {
            state: BroadcastState {
                archive_exception: Some(
                    Exception { broadcast_created_at: b.state.created_at, value: true },
                ),
                ..b.state
            },
            ..b
        }
    } else {
        b
    }
}

impl Step {
    /// Whether the step can happen to this inbox. A created item is newer than
    /// every watermark; a delivery is due and delivers one item; a counter has
    /// room for what enters it.
    pub open spec fn possible(self, st: InboxState) -> bool {
        let s = st.scope;
        let c = s.counters;
        let room = c.unread_direct_count < i32::MAX && c.unseen_direct_count < i32::MAX;
        match self {
            Step::Created { item } => {
                &&& untouched(item.state)
                &&& item.state.visible_at <= s.now
                &&& item.state.visible_at > c.read_watermark
                &&& item.state.visible_at > c.archive_watermark
                &&& item.state.visible_at > c.seen_watermark
                &&& !is_pending(s.deliver_jobs@, item.id)
                &&& room
            },
            Step::Scheduled { item, jobs } => {
                &&& forall|j: int|
                    0 <= j < st.notifications.len() ==> (#[trigger] st.notifications[j]).id
                        != item.id
                &&& forall|id: u128| #[trigger]
                    is_pending(jobs@, id) == (is_pending(s.deliver_jobs@, id) || id == item.id)
            },
            Step::Delivered { i, jobs } => {
                &&& 0 <= i < st.notifications.len()
                &&& is_pending(s.deliver_jobs@, st.notifications[i].id)
                &&& s.shows_notification(st.notifications[i])
                &&& forall|j: int|
                    0 <= j < st.notifications.len() && j != i ==> (#[trigger] st.notifications[j]).id
                        != st.notifications[i].id
                &&& forall|id: u128| #[trigger]
                    is_pending(jobs@, id) == (is_pending(s.deliver_jobs@, id) && id
                        != st.notifications[i].id)
                &&& room
            },
            Step::Broadcasted { broadcast } => broadcast.state.wf(),
            Step::Read { i } => 0 <= i < st.notifications.len(),
            Step::Unread { i } => {
                &&& 0 <= i < st.notifications.len()
                &&& !counter_full(
                    s,
                    unread_change(s, st.notifications[i]),
                    counted_once_unread(s, st.notifications[i]),
                )
            },
            Step::Archived { i } => 0 <= i < st.notifications.len(),
            Step::Unarchived { i } => {
                &&& 0 <= i < st.notifications.len()
                &&& !counter_full(
                    s,
                    unarchive_change(s, st.notifications[i]),
                    counted_once_unarchived(s, st.notifications[i]),
                )
            },
            Step::BroadcastRead { i, .. } => 0 <= i < st.broadcasts.len(),
            Step::BroadcastArchived { i, .. } => 0 <= i < st.broadcasts.len(),
            Step::AllRead { clock } => clock >= s.now,
            Step::AllArchived { clock } => clock >= s.now,
            Step::AllSeen { clock } => clock >= s.now,
            Step::ReadArchived { .. } => true,
            Step::PreferencesSet { preferences } => {
                let after = Scope { preferences, ..s };
                &&& tally(st.notifications, |n: Notification| after.counts(n)) <= i32::MAX
                &&& tally(st.notifications, |n: Notification| counts_unseen(after, n)) <= i32::MAX
            },
            Step::Waited { now } => now >= s.now,
        }
    }

    /// The inbox after the step. A created item and a delivered one enter the
    /// counters where they count; a request does what it decides.
    pub open spec fn taken(self, st: InboxState) -> InboxState {
        let s = st.scope;
        let c = s.counters;
        match self {
            Step::Created { item } => InboxState {
                scope: Scope {
                    counters: Counters {
                        unread_direct_count: bumped(c.unread_direct_count, !s.mutes(item.category@)),
                        unseen_direct_count: bumped(c.unseen_direct_count, !s.mutes(item.category@)),
                        updated_at: s.now,
                        ..c
                    },
                    ..s
                },
                notifications: st.notifications.push(item),
                ..st
            },
            Step::Scheduled { item, jobs } => InboxState {
                scope: Scope { deliver_jobs: jobs, ..s },
                notifications: st.notifications.push(item),
                ..st
            },
            Step::Delivered { i, jobs } => {
                let after = Scope { deliver_jobs: jobs, ..s };
                let item = st.notifications[i];
                InboxState {
                    scope: Scope {
                        counters: Counters {
                            unread_direct_count: bumped(c.unread_direct_count, after.counts(item)),
                            unseen_direct_count: bumped(
                                c.unseen_direct_count,
                                counts_unseen(after, item),
                            ),
                            updated_at: s.now,
                            ..c
                        },
                        ..after
                    },
                    ..st
                }
            },
            Step::Broadcasted { broadcast } => InboxState {
                broadcasts: st.broadcasts.push(broadcast),
                ..st
            },
            Step::Read { i } => st.notification_changed(i, read_change(s, st.notifications[i])),
            Step::Unread { i } => st.notification_changed(i, unread_change(s, st.notifications[i])),
            Step::Archived { i } => st.notification_changed(
                i,
                archive_change(s, st.notifications[i]),
            ),
            Step::Unarchived { i } => st.notification_changed(
                i,
                unarchive_change(s, st.notifications[i]),
            ),
            Step::BroadcastRead { i, value } => st.read_exception_changed(
                i,
                broadcast_change(
                    s,
                    st.broadcasts[i].state.read_exception,
                    read_after(s, st.broadcasts[i].state, value),
                    HintReason::ReadState,
                ),
            ),
            Step::BroadcastArchived { i, value } => st.archive_exception_changed(
                i,
                broadcast_change(
                    s,
                    st.broadcasts[i].state.archive_exception,
                    archived_after(s, st.broadcasts[i].state, value),
                    HintReason::ArchiveState,
                ),
            ),
            Step::AllRead { clock } => st.all_read(clock),
            Step::AllArchived { clock } => st.all_archived(clock),
            Step::AllSeen { clock } => st.all_seen(clock),
            Step::ReadArchived { as_of, clock } => InboxState {
                notifications: st.notifications.map_values(
                    |n: Notification| read_item_archived(s, n, as_of, clock),
                ),
                broadcasts: st.broadcasts.map_values(
                    |b: Broadcast| read_broadcast_archived(s, b, as_of),
                ),
                ..st
            },
            Step::PreferencesSet { preferences } => {
                let after = Scope { preferences, ..s };
                InboxState {
                    scope: Scope {
                        counters: Counters {
                            unread_direct_count: tally(
                                st.notifications,
                                |n: Notification| after.counts(n),
                            ) as i32,
                            unseen_direct_count: tally(
                                st.notifications,
                                |n: Notification| counts_unseen(after, n),
                            ) as i32,
                            updated_at: s.now,
                            ..c
                        },
                        ..after
                    },
                    ..st
                }
            },
            Step::Waited { now } => st.at(now),
        }
    }
}

/// The inbox after all of `steps`, in order.
pub open spec fn history(st: InboxState, steps: Seq<Step>) -> InboxState
    decreases steps.len(),
{
    if steps.len() == 0 {
        st
    } else {
        history(steps.first().taken(st), steps.drop_first())
    }
}

/// Whether each of `steps` can happen when its turn comes.
pub open spec fn can_happen(st: InboxState, steps: Seq<Step>) -> bool
    decreases steps.len(),
{
    steps.len() == 0 || (steps.first().possible(st) && can_happen(
        steps.first().taken(st),
        steps.drop_first(),
    ))
}

/// An inbox without items and with its counters at zero is in step.
pub proof fn an_empty_inbox_is_in_step(st: InboxState)
    requires
        st.notifications.len() == 0,
        st.broadcasts.len() == 0,
        st.scope.counters.unread_direct_count == 0,
        st.scope.counters.unseen_direct_count == 0,
    ensures
        st.in_step(),
{
}

proof fn lemma_created(st: InboxState, item: Notification)
    requires
        st.in_step(),
        (Step::Created { item }).possible(st),
    ensures
        (Step::Created { item }).taken(st).in_step(),
{
    let after = (Step::Created { item }).taken(st);
    let p = |n: Notification| st.scope.counts(n);
    let q = |n: Notification| counts_unseen(st.scope, n);
    let pa = |n: Notification| after.scope.counts(n);
    let qa = |n: Notification| counts_unseen(after.scope, n);
    lemma_tally_same(st.notifications, p, st.notifications, pa);
    lemma_tally_same(st.notifications, q, st.notifications, qa);
    assert(after.notifications.drop_last() =~= st.notifications);
    assert forall|k: int| 0 <= k < after.notifications.len() implies is_pending(
        after.scope.deliver_jobs@,
        (#[trigger] after.notifications[k]).id,
    ) || after.scope.shows_notification(after.notifications[k]) by {
        if k < st.notifications.len() {
            assert(after.notifications[k] == st.notifications[k]);
        }
    }
}

proof fn lemma_scheduled(st: InboxState, item: Notification, jobs: Vec<DeliverJob>)
    requires
        st.in_step(),
        (Step::Scheduled { item, jobs }).possible(st),
    ensures
        (Step::Scheduled { item, jobs }).taken(st).in_step(),
{
    let after = (Step::Scheduled { item, jobs }).taken(st);
    let p = |n: Notification| st.scope.counts(n);
    let q = |n: Notification| counts_unseen(st.scope, n);
    let pa = |n: Notification| after.scope.counts(n);
    let qa = |n: Notification| counts_unseen(after.scope, n);
    lemma_tally_same(st.notifications, p, st.notifications, pa);
    lemma_tally_same(st.notifications, q, st.notifications, qa);
    assert(after.notifications.drop_last() =~= st.notifications);
    assert(is_pending(jobs@, item.id));
    assert forall|k: int| 0 <= k < after.notifications.len() implies is_pending(
        after.scope.deliver_jobs@,
        (#[trigger] after.notifications[k]).id,
    ) || after.scope.shows_notification(after.notifications[k]) by {
        if k < st.notifications.len() {
            assert(after.notifications[k] == st.notifications[k]);
        }
    }
}

proof fn lemma_delivered(st: InboxState, i: int, jobs: Vec<DeliverJob>)
    requires
        st.in_step(),
        (Step::Delivered { i, jobs }).possible(st),
    ensures
        (Step::Delivered { i, jobs }).taken(st).in_step(),
{
    let after = (Step::Delivered { i, jobs }).taken(st);
    let p = |n: Notification| st.scope.counts(n);
    let q = |n: Notification| counts_unseen(st.scope, n);
    let pa = |n: Notification| after.scope.counts(n);
    let qa = |n: Notification| counts_unseen(after.scope, n);
    lemma_tally_differs_at(st.notifications, p, pa, i);
    lemma_tally_differs_at(st.notifications, q, qa, i);
    assert forall|k: int| 0 <= k < after.notifications.len() implies is_pending(
        after.scope.deliver_jobs@,
        (#[trigger] after.notifications[k]).id,
    ) || after.scope.shows_notification(after.notifications[k]) by {
        assert(is_pending(st.scope.deliver_jobs@, st.notifications[k].id)
            || st.scope.shows_notification(st.notifications[k]));
    }
}

proof fn lemma_broadcasted(st: InboxState, broadcast: Broadcast)
    requires
        st.in_step(),
        broadcast.state.wf(),
    ensures
        (Step::Broadcasted { broadcast }).taken(st).in_step(),
{
    let after = (Step::Broadcasted { broadcast }).taken(st);
    assert(after.scope == st.scope && after.notifications == st.notifications);
    assert forall|k: int| 0 <= k < after.broadcasts.len() implies (
    #[trigger] after.broadcasts[k]).state.wf() by {
        if k < st.broadcasts.len() {
            assert(after.broadcasts[k] == st.broadcasts[k]);
        }
    }
}

proof fn lemma_read_archived(st: InboxState, as_of: i64, clock: i64)
    requires
        st.in_step(),
    ensures
        (Step::ReadArchived { as_of, clock }).taken(st).in_step(),
{
    let after = (Step::ReadArchived { as_of, clock }).taken(st);
    let p = |n: Notification| st.scope.counts(n);
    let q = |n: Notification| counts_unseen(st.scope, n);
    assert(after.scope == st.scope);
    lemma_tally_same(st.notifications, p, after.notifications, p);
    lemma_tally_same(st.notifications, q, after.notifications, q);
    assert forall|k: int| 0 <= k < after.notifications.len() implies is_pending(
        after.scope.deliver_jobs@,
        (#[trigger] after.notifications[k]).id,
    ) || after.scope.shows_notification(after.notifications[k]) by {
        assert(is_pending(st.scope.deliver_jobs@, st.notifications[k].id)
            || st.scope.shows_notification(st.notifications[k]));
    }
    assert forall|k: int| 0 <= k < after.broadcasts.len() implies (
    #[trigger] after.broadcasts[k]).state.wf() by {
        assert(st.broadcasts[k].state.wf());
    }
}

proof fn lemma_preferences_set(st: InboxState, preferences: Vec<Preference>)
    requires
        st.in_step(),
        (Step::PreferencesSet { preferences }).possible(st),
    ensures
        (Step::PreferencesSet { preferences }).taken(st).in_step(),
{
    let after = (Step::PreferencesSet { preferences }).taken(st);
    let s = Scope { preferences, ..st.scope };
    let p = |n: Notification| s.counts(n);
    let q = |n: Notification| counts_unseen(s, n);
    let pa = |n: Notification| after.scope.counts(n);
    let qa = |n: Notification| counts_unseen(after.scope, n);
    lemma_tally_same(st.notifications, p, st.notifications, pa);
    lemma_tally_same(st.notifications, q, st.notifications, qa);
    assert forall|k: int| 0 <= k < after.notifications.len() implies is_pending(
        after.scope.deliver_jobs@,
        (#[trigger] after.notifications[k]).id,
    ) || after.scope.shows_notification(after.notifications[k]) by {
        assert(is_pending(st.scope.deliver_jobs@, st.notifications[k].id)
            || st.scope.shows_notification(st.notifications[k]));
    }
}

/// Every step keeps the maintained counters in step.
pub proof fn every_step_keeps_the_counters_in_step(st: InboxState, step: Step)
    requires
        st.in_step(),
        step.possible(st),
    ensures
        step.taken(st).in_step(),
{
    match step {
        Step::Created { item } => lemma_created(st, item),
        Step::Scheduled { item, jobs } => lemma_scheduled(st, item, jobs),
        Step::Delivered { i, jobs } => lemma_delivered(st, i, jobs),
        Step::Broadcasted { broadcast } => lemma_broadcasted(st, broadcast),
        Step::Read { i } => marking_read_keeps_the_counters_in_step(st, i),
        Step::Unread { i } => marking_unread_keeps_the_counters_in_step(st, i),
        Step::Archived { i } => archiving_keeps_the_counters_in_step(st, i),
        Step::Unarchived { i } => unarchiving_keeps_the_counters_in_step(st, i),
        Step::BroadcastRead { i, value } => marking_a_broadcast_keeps_the_counters_in_step(
            st,
            i,
            value,
        ),
        Step::BroadcastArchived { i, value } => archiving_a_broadcast_keeps_the_counters_in_step(
            st,
            i,
            value,
        ),
        Step::AllRead { clock } => marking_all_read_keeps_the_counters_in_step(st, clock),
        Step::AllArchived { clock } => archiving_all_keeps_the_counters_in_step(st, clock),
        Step::AllSeen { clock } => marking_all_seen_keeps_the_counters_in_step(st, clock),
        Step::ReadArchived { as_of, clock } => lemma_read_archived(st, as_of, clock),
        Step::PreferencesSet { preferences } => lemma_preferences_set(st, preferences),
        Step::Waited { now } => time_passing_keeps_the_counters_in_step(st, now),
    }
}

/// Whatever happens to an inbox in step, it stays in step.
pub proof fn every_history_keeps_the_counters_in_step(st: InboxState, steps: Seq<Step>)
    requires
        st.in_step(),
        can_happen(st, steps),
    ensures
        history(st, steps).in_step(),
    decreases steps.len(),
{
    if steps.len() > 0 {
        every_step_keeps_the_counters_in_step(st, steps.first());
        every_history_keeps_the_counters_in_step(steps.first().taken(st), steps.drop_first());
    }
}

/// Every delivery that is due has run.
pub open spec fn all_delivered(st: InboxState) -> bool {
    forall|i: int|
        0 <= i < st.notifications.len() && st.scope.shows_notification(
            #[trigger] st.notifications[i],
        ) ==> !is_pending(st.scope.deliver_jobs@, st.notifications[i].id)
}

/// Whatever has happened to an inbox that began in step, once every due
/// delivery has run the counts say what is shown: the unread count is the
/// number of items in the whole unread view, the unseen count the number of
/// visible, unmuted items above the seen watermark, archived ones with the
/// rest, and neither is negative.
pub proof fn after_any_history_the_counts_agree(
    start: InboxState,
    steps: Seq<Step>,
    w: ListWindow,
    notifications: Seq<(Notification, serde_json::Value)>,
    broadcasts: Seq<(Broadcast, serde_json::Value)>,
)
    requires
        start.in_step(),
        can_happen(start, steps),
        all_delivered(history(start, steps)),
        notifications.map_values(|n: (Notification, serde_json::Value)| n.0) == history(
            start,
            steps,
        ).notifications,
        broadcasts.map_values(|b: (Broadcast, serde_json::Value)| b.0) == history(
            start,
            steps,
        ).broadcasts,
        window_covers(history(start, steps), w),
        w.filter is Unread,
    ensures
        ({
            let st = history(start, steps);
            &&& unread_total(st.scope, st.broadcasts) == listed_rows(
                st.scope,
                w,
                notifications,
                broadcasts,
            ).len()
            &&& unseen_total(st.scope, st.broadcasts) == tally(
                st.notifications,
                |n: Notification| unseen_item(st.scope, n),
            ) + tally(st.broadcasts, |b: Broadcast| unseen_broadcast(st.scope, b))
            &&& unread_total(st.scope, st.broadcasts) >= 0
            &&& unseen_total(st.scope, st.broadcasts) >= 0
        }),
{
    let st = history(start, steps);
    every_history_keeps_the_counters_in_step(start, steps);
    assert forall|i: int| 0 <= i < st.notifications.len() implies !listed_before_delivery(
        st.scope,
        w,
    )(#[trigger] st.notifications[i]) && !unseen_before_delivery(st.scope)(
        st.notifications[i],
    ) by {
    }
    unread_count_equals_visible_unread_items(st, w, notifications, broadcasts);
    unseen_count_agrees_with_the_items(st);
    lemma_tally_none(st.notifications, unseen_before_delivery(st.scope));
}

} // verus!
