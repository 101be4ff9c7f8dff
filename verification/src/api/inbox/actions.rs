//! What marking and archiving do to an item, the counters and the timeline.
//!
//! Each function decides one request from the rows that it concerns, read
//! under the counters lock, and hands back what is to be written.

use vstd::prelude::*;
use super::rows::{
    muted, pending_deliver, is_pending, BroadcastState, Counters, Exception, Notification,
    NotificationState, Scope,
};
use super::outcomes::{
    archiving_all_clears_the_overrides, marking_all_read_clears_the_overrides,
    what_a_moved_watermark_drops,
};
use crate::error::{ApiError, ErrorCode};
use crate::ids::{
    parse_typeid, typed_form_round_trips, typeid_text, typeid_value, BROADCAST, NOTIFICATION,
};

verus! {

/// Why live clients are told to refetch.
#[derive(Clone, Copy, Debug, PartialEq, Eq, Structural)]
pub enum HintReason {
    ReadState,
    ArchiveState,
}

impl HintReason {
    /// The reason as it stands in the hint.
    pub open spec fn text(self) -> Seq<char> {
        match self {
            HintReason::ReadState => "read_state"@,
            HintReason::ArchiveState => "archive_state"@,
        }
    }

    /// The reason as it stands in the hint.
    pub fn as_str(self) -> (r: &'static str)
        ensures
            r@ == self.text(),
            self is ReadState ==> r@ == "read_state"@,
            self is ArchiveState ==> r@ == "archive_state"@,
    {
        match self {
            HintReason::ReadState => "read_state",
            HintReason::ArchiveState => "archive_state",
        }
    }
}

/// A lifecycle status in a notification's timeline.
#[derive(Clone, Copy, Debug, PartialEq, Eq, Structural)]
pub enum TimelineStatus {
    Seen,
    Read,
}

impl TimelineStatus {
    /// The status as it stands in the timeline.
    pub open spec fn text(self) -> Seq<char> {
        match self {
            TimelineStatus::Seen => "seen"@,
            TimelineStatus::Read => "read"@,
        }
    }

    /// The status as it stands in the timeline.
    pub fn as_str(self) -> (r: &'static str)
        ensures
            r@ == self.text(),
            self is Seen ==> r@ == "seen"@,
            self is Read ==> r@ == "read"@,
    {
        match self {
            TimelineStatus::Seen => "seen",
            TimelineStatus::Read => "read",
        }
    }
}

/// What a request writes for one direct notification.
#[derive(Clone, Copy, Debug, PartialEq, Eq, Structural)]
pub struct NotificationChange {
    pub state: NotificationState,
    pub counters: Counters,
    /// A status to append to the notification's timeline.
    pub timeline: Option<TimelineStatus>,
    pub hint: HintReason,
}

/// What a request writes for one broadcast.
#[derive(Clone, Copy, Debug, PartialEq, Eq, Structural)]
pub struct BroadcastChange {
    /// The exception row afterwards; `None` deletes it.
    pub exception: Option<Exception>,
    pub counters: Counters,
    pub hint: HintReason,
}

/// One less when `counted`, never below zero.
pub open spec fn less(count: i32, counted: bool) -> int {
    let n: int = if counted { count - 1 } else { count as int };
    if n < 0 {
        0
    } else {
        n
    }
}

/// One more when `counted`.
pub open spec fn more(count: i32, counted: bool) -> int {
    if counted {
        count + 1
    } else {
        count as int
    }
}

/// Marking `n` read: an explicit read instant replaces any unread override,
/// and a counted item leaves the count. Nothing when it is explicitly read.
pub open spec fn read_change(s: Scope, n: Notification) -> Option<NotificationChange> {
    if n.state.read_at is Some {
        None
    } else {
        Some(
            NotificationChange {
                state: NotificationState { read_at: Some(s.now), unread_at: None, ..n.state },
                counters: Counters {
                    unread_direct_count: less(s.counters.unread_direct_count, s.counts(n)) as i32,
                    updated_at: s.now,
                    ..s.counters
                },
                timeline: Some(TimelineStatus::Read),
                hint: HintReason::ReadState,
            },
        )
    }
}

/// Whether `n` would be counted if it were unread.
pub open spec fn counted_once_unread(s: Scope, n: Notification) -> bool {
    &&& !is_pending(s.deliver_jobs@, n.id)
    &&& !s.mutes(n.category@)
    &&& !n.state.is_archived(s.counters)
}

/// Marking `n` unread: the explicit read goes, at or below the watermark an
/// override outranks it, and the item enters the count. Nothing when it is
/// unread already.
pub open spec fn unread_change(s: Scope, n: Notification) -> Option<NotificationChange> {
    if !n.state.is_read(s.counters) {
        None
    } else {
        let below = n.state.visible_at <= s.counters.read_watermark;
        Some(
            NotificationChange {
                state: NotificationState {
                    read_at: None,
                    unread_at: if below { Some(s.now) } else { None },
                    ..n.state
                },
                counters: Counters {
                    unread_direct_count: more(
                        s.counters.unread_direct_count,
                        counted_once_unread(s, n),
                    ) as i32,
                    updated_at: s.now,
                    ..s.counters
                },
                timeline: None,
                hint: HintReason::ReadState,
            },
        )
    }
}

/// Archiving `n`: an explicit archive instant replaces any unarchive override,
/// and a counted item leaves the count. Nothing when it is archived already.
pub open spec fn archive_change(s: Scope, n: Notification) -> Option<NotificationChange> {
    if n.state.is_archived(s.counters) {
        None
    } else {
        Some(
            NotificationChange {
                state: NotificationState { archived_at: Some(s.now), unarchived_at: None, ..n.state },
                counters: Counters {
                    unread_direct_count: less(s.counters.unread_direct_count, s.counts(n)) as i32,
                    updated_at: s.now,
                    ..s.counters
                },
                timeline: None,
                hint: HintReason::ArchiveState,
            },
        )
    }
}

/// Whether `n` would be counted if it were not archived.
pub open spec fn counted_once_unarchived(s: Scope, n: Notification) -> bool {
    &&& !is_pending(s.deliver_jobs@, n.id)
    &&& !s.mutes(n.category@)
    &&& !n.state.is_read(s.counters)
}

/// Unarchiving `n`: the explicit archive goes, at or below the watermark an
/// override outranks it, and an unread item re-enters the count. Nothing when
/// it is not archived.
pub open spec fn unarchive_change(s: Scope, n: Notification) -> Option<NotificationChange> {
    if !n.state.is_archived(s.counters) {
        None
    } else {
        let below = n.state.visible_at <= s.counters.archive_watermark;
        Some(
            NotificationChange {
                state: NotificationState {
                    archived_at: None,
                    unarchived_at: if below { Some(s.now) } else { None },
                    ..n.state
                },
                counters: Counters {
                    unread_direct_count: more(
                        s.counters.unread_direct_count,
                        counted_once_unarchived(s, n),
                    ) as i32,
                    updated_at: s.now,
                    ..s.counters
                },
                timeline: None,
                hint: HintReason::ArchiveState,
            },
        )
    }
}

fn counted(scope: &Scope, n: &Notification) -> (r: bool)
    ensures
        r == scope.counts(*n),
{
    !n.state.archived(&scope.counters) && !n.state.read(&scope.counters) && !muted(
        &scope.preferences,
        n.category.as_str(),
    ) && !pending_deliver(&scope.deliver_jobs, n.id)
}

fn one_less(count: i32, counted: bool) -> (r: i32)
    ensures
        r == less(count, counted),
{
    if count < 0 {
        0
    } else if counted && count > 0 {
        count - 1
    } else {
        count
    }
}

/// The request concerns a notification in the inbox.
pub open spec fn finds_notification(s: Scope, found: Option<&Notification>) -> bool {
    found matches Some(n) && s.shows_notification(*n)
}

/// Marks one direct notification as read. `found` is the subscriber's row of
/// that id; a scheduled row is not in the inbox yet.
pub fn mark_notification_read(scope: &Scope, found: Option<&Notification>) -> (r: Result<
    Option<NotificationChange>,
    ApiError,
>)
    ensures
        match r {
            Ok(change) => finds_notification(*scope, found) && change == read_change(
                *scope,
                *found->0,
            ),
            Err(e) => !finds_notification(*scope, found) && e.is(
                ErrorCode::NotFound,
                "no such notification"@,
            ),
        },
        r is Ok <==> found is Some && found->0.state.visible_at <= scope.now,
        r matches Ok(change) ==> (change is None <==> found->0.state.read_at is Some),
        r matches Ok(Some(c)) ==> c.state == (NotificationState {
            read_at: Some(scope.now),
            unread_at: None,
            ..found->0.state
        }) && c.timeline == Some(TimelineStatus::Read) && c.hint == HintReason::ReadState,
        r matches Ok(Some(c)) ==> c.counters == (Counters {
            unread_direct_count: c.counters.unread_direct_count,
            updated_at: scope.now,
            ..scope.counters
        }),
{
    match found {
        Some(n) if n.state.visible_at <= scope.now => {
            if n.state.read_at.is_some() {
                return Ok(None);
            }
            let count: i32 = one_less(scope.counters.unread_direct_count, counted(scope, n));
            Ok(
                Some(
                    NotificationChange {
                        state: NotificationState { read_at: Some(scope.now), unread_at: None, ..n.state },
                        counters: Counters {
                            unread_direct_count: count,
                            updated_at: scope.now,
                            ..scope.counters
                        },
                        timeline: Some(TimelineStatus::Read),
                        hint: HintReason::ReadState,
                    },
                ),
            )
        },
        _ => Err(ApiError::not_found("no such notification")),
    }
}

/// Marks one direct notification as unread. The override survives the read
/// watermark.
pub fn mark_notification_unread(scope: &Scope, found: Option<&Notification>) -> (r: Result<
    Option<NotificationChange>,
    ApiError,
>)
    ensures
        match r {
            Ok(change) => finds_notification(*scope, found) && change == unread_change(
                *scope,
                *found->0,
            ) && !counter_full(*scope, change, counted_once_unread(*scope, *found->0)),
            Err(e) => {
                ||| !finds_notification(*scope, found) && e.is(
                    ErrorCode::NotFound,
                    "no such notification"@,
                )
                ||| finds_notification(*scope, found) && counter_full(
                    *scope,
                    unread_change(*scope, *found->0),
                    counted_once_unread(*scope, *found->0),
                ) && e.is(ErrorCode::Internal, "internal error"@)
            },
        },
        r matches Ok(change) ==> found->0.state.visible_at <= scope.now && (change is None
            <==> found->0.state.read_at is None && (found->0.state.unread_at is Some
            || found->0.state.visible_at > scope.counters.read_watermark)),
        r matches Ok(Some(c)) ==> c.state == (NotificationState {
            read_at: None,
            unread_at: if found->0.state.visible_at <= scope.counters.read_watermark {
                Some(scope.now)
            } else {
                None
            },
            ..found->0.state
        }) && c.timeline is None && c.hint == HintReason::ReadState,
        r matches Ok(Some(c)) ==> c.counters == (Counters {
            unread_direct_count: c.counters.unread_direct_count,
            updated_at: scope.now,
            ..scope.counters
        }),
{
    match found {
        Some(n) if n.state.visible_at <= scope.now => {
            let c: &Counters = &scope.counters;
            if !n.state.read(c) {
                return Ok(None);
            }
            let enters: bool = !n.state.archived(c) && !muted(
                &scope.preferences,
                n.category.as_str(),
            ) && !pending_deliver(&scope.deliver_jobs, n.id);
            if enters && c.unread_direct_count == i32::MAX {
                return Err(ApiError::internal());
            }
            let count: i32 = if enters { c.unread_direct_count + 1 } else { c.unread_direct_count };
            let below: bool = n.state.visible_at <= c.read_watermark;
            Ok(
                Some(
                    NotificationChange {
                        state: NotificationState {
                            read_at: None,
                            unread_at: if below { Some(scope.now) } else { None },
                            ..n.state
                        },
                        counters: Counters {
                            unread_direct_count: count,
                            updated_at: scope.now,
                            ..*c
                        },
                        timeline: None,
                        hint: HintReason::ReadState,
                    },
                ),
            )
        },
        _ => Err(ApiError::not_found("no such notification")),
    }
}

/// Whether the change would push the maintained counter out of its range.
pub open spec fn counter_full(
    s: Scope,
    change: Option<NotificationChange>,
    enters: bool,
) -> bool {
    change is Some && enters && s.counters.unread_direct_count == i32::MAX
}

/// Archives one direct notification. Archiving never changes read state.
pub fn archive_notification(scope: &Scope, found: Option<&Notification>) -> (r: Result<
    Option<NotificationChange>,
    ApiError,
>)
    ensures
        match r {
            Ok(change) => finds_notification(*scope, found) && change == archive_change(
                *scope,
                *found->0,
            ),
            Err(e) => !finds_notification(*scope, found) && e.is(
                ErrorCode::NotFound,
                "no such notification"@,
            ),
        },
        r is Ok <==> found is Some && found->0.state.visible_at <= scope.now,
        r matches Ok(change) ==> (change is None <==> found->0.state.archived_at is Some || (
        found->0.state.unarchived_at is None && found->0.state.visible_at
            <= scope.counters.archive_watermark)),
        r matches Ok(Some(c)) ==> c.state == (NotificationState {
            archived_at: Some(scope.now),
            unarchived_at: None,
            ..found->0.state
        }) && c.timeline is None && c.hint == HintReason::ArchiveState,
        r matches Ok(Some(c)) ==> c.counters == (Counters {
            unread_direct_count: c.counters.unread_direct_count,
            updated_at: scope.now,
            ..scope.counters
        }),
{
    match found {
        Some(n) if n.state.visible_at <= scope.now => {
            if n.state.archived(&scope.counters) {
                return Ok(None);
            }
            let count: i32 = one_less(scope.counters.unread_direct_count, counted(scope, n));
            Ok(
                Some(
                    NotificationChange {
                        state: NotificationState {
                            archived_at: Some(scope.now),
                            unarchived_at: None,
                            ..n.state
                        },
                        counters: Counters {
                            unread_direct_count: count,
                            updated_at: scope.now,
                            ..scope.counters
                        },
                        timeline: None,
                        hint: HintReason::ArchiveState,
                    },
                ),
            )
        },
        _ => Err(ApiError::not_found("no such notification")),
    }
}

/// Returns one direct notification to the inbox. Read state is untouched.
pub fn unarchive_notification(scope: &Scope, found: Option<&Notification>) -> (r: Result<
    Option<NotificationChange>,
    ApiError,
>)
    ensures
        match r {
            Ok(change) => finds_notification(*scope, found) && change == unarchive_change(
                *scope,
                *found->0,
            ) && !counter_full(*scope, change, counted_once_unarchived(*scope, *found->0)),
            Err(e) => {
                ||| !finds_notification(*scope, found) && e.is(
                    ErrorCode::NotFound,
                    "no such notification"@,
                )
                ||| finds_notification(*scope, found) && counter_full(
                    *scope,
                    unarchive_change(*scope, *found->0),
                    counted_once_unarchived(*scope, *found->0),
                ) && e.is(ErrorCode::Internal, "internal error"@)
            },
        },
        r matches Ok(change) ==> found->0.state.visible_at <= scope.now && (change is None
            <==> found->0.state.archived_at is None && (found->0.state.unarchived_at is Some
            || found->0.state.visible_at > scope.counters.archive_watermark)),
        r matches Ok(Some(c)) ==> c.state == (NotificationState {
            archived_at: None,
            unarchived_at: if found->0.state.visible_at <= scope.counters.archive_watermark {
                Some(scope.now)
            } else {
                None
            },
            ..found->0.state
        }) && c.timeline is None && c.hint == HintReason::ArchiveState,
        r matches Ok(Some(c)) ==> c.counters == (Counters {
            unread_direct_count: c.counters.unread_direct_count,
            updated_at: scope.now,
            ..scope.counters
        }),
{
    match found {
        Some(n) if n.state.visible_at <= scope.now => {
            let c: &Counters = &scope.counters;
            if !n.state.archived(c) {
                return Ok(None);
            }
            let enters: bool = !n.state.read(c) && !muted(&scope.preferences, n.category.as_str())
                && !pending_deliver(&scope.deliver_jobs, n.id);
            if enters && c.unread_direct_count == i32::MAX {
                return Err(ApiError::internal());
            }
            let count: i32 = if enters { c.unread_direct_count + 1 } else { c.unread_direct_count };
            let below: bool = n.state.visible_at <= c.archive_watermark;
            Ok(
                Some(
                    NotificationChange {
                        state: NotificationState {
                            archived_at: None,
                            unarchived_at: if below { Some(scope.now) } else { None },
                            ..n.state
                        },
                        counters: Counters {
                            unread_direct_count: count,
                            updated_at: scope.now,
                            ..*c
                        },
                        timeline: None,
                        hint: HintReason::ArchiveState,
                    },
                ),
            )
        },
        _ => Err(ApiError::not_found("no such notification")),
    }
}

/// The exception row that makes a broadcast `value`, given the watermark that
/// would otherwise decide: above it a row says so, at or below it an opposite
/// row goes when the watermark says the same.
pub open spec fn exception_after(
    created_at: i64,
    watermark: i64,
    exception: Option<Exception>,
    value: bool,
) -> Option<Exception> {
    if (created_at <= watermark) == value {
        if exception matches Some(e) && e.value != value {
            None
        } else {
            exception
        }
    } else {
        match exception {
            Some(e) => Some(Exception { value, ..e }),
            None => Some(Exception { broadcast_created_at: created_at, value }),
        }
    }
}

/// What a request writes when it turns one exception row into another:
/// nothing when the row stays.
pub open spec fn broadcast_change(
    s: Scope,
    before: Option<Exception>,
    after: Option<Exception>,
    hint: HintReason,
) -> Option<BroadcastChange> {
    if before == after {
        None
    } else {
        Some(
            BroadcastChange {
                exception: after,
                counters: Counters { updated_at: s.now, ..s.counters },
                hint,
            },
        )
    }
}

/// The request concerns a broadcast in the inbox. The visibility rule doubles
/// as the existence rule.
pub open spec fn finds_broadcast(s: Scope, found: Option<BroadcastState>) -> bool {
    found matches Some(b) && s.shows_broadcast(b)
}

/// The read row that a request to read (`value`) or unread leaves.
pub open spec fn read_after(s: Scope, b: BroadcastState, value: bool) -> Option<Exception> {
    exception_after(b.created_at, s.counters.read_watermark, b.read_exception, value)
}

/// The archive row that a request to archive (`value`) or unarchive leaves.
pub open spec fn archived_after(s: Scope, b: BroadcastState, value: bool) -> Option<Exception> {
    exception_after(b.created_at, s.counters.archive_watermark, b.archive_exception, value)
}

fn next_exception(
    created_at: i64,
    watermark: i64,
    exception: Option<Exception>,
    value: bool,
) -> (r: Option<Exception>)
    ensures
        r == exception_after(created_at, watermark, exception, value),
{
    if (created_at <= watermark) == value {
        match exception {
            Some(e) if e.value != value => None,
            _ => exception,
        }
    } else {
        match exception {
            Some(e) => Some(Exception { value, ..e }),
            None => Some(Exception { broadcast_created_at: created_at, value }),
        }
    }
}

fn exception_moved(before: Option<Exception>, after: Option<Exception>) -> (r: bool)
    ensures
        r == (before != after),
{
    match (before, after) {
        (None, None) => false,
        (Some(x), Some(y)) => x != y,
        _ => true,
    }
}

fn write_exception(
    scope: &Scope,
    before: Option<Exception>,
    after: Option<Exception>,
    hint: HintReason,
) -> (r: Option<BroadcastChange>)
    ensures
        r == broadcast_change(*scope, before, after, hint),
{
    if exception_moved(before, after) {
        Some(
            BroadcastChange {
                exception: after,
                counters: Counters { updated_at: scope.now, ..scope.counters },
                hint,
            },
        )
    } else {
        None
    }
}

/// Marks one broadcast as read for this subscriber. `found` is the
/// environment's broadcast of that id with the subscriber's exceptions.
pub fn mark_broadcast_read(scope: &Scope, found: Option<BroadcastState>) -> (r: Result<
    Option<BroadcastChange>,
    ApiError,
>)
    ensures
        match r {
            Ok(change) => finds_broadcast(*scope, found) && change == broadcast_change(
                *scope,
                found->0.read_exception,
                read_after(*scope, found->0, true),
                HintReason::ReadState,
            ),
            Err(e) => !finds_broadcast(*scope, found) && e.is(
                ErrorCode::NotFound,
                "no such broadcast"@,
            ),
        },
        r is Ok <==> found is Some && found->0.created_at >= scope.subscriber_created_at,
        r matches Ok(change) ==> (change is None <==> match found->0.read_exception {
            Some(e) => e.value,
            None => (found->0.created_at <= scope.counters.read_watermark),
        }),
        r matches Ok(Some(c)) ==> match c.exception {
            Some(e) => e.value && !(found->0.created_at <= scope.counters.read_watermark),
            None => (found->0.created_at <= scope.counters.read_watermark),
        },
        r matches Ok(Some(c)) ==> (c.exception matches Some(e) ==> e.broadcast_created_at
            == match found->0.read_exception {
            Some(before) => before.broadcast_created_at,
            None => found->0.created_at,
        }),
        r matches Ok(Some(c)) ==> c.hint == HintReason::ReadState && c.counters == (Counters {
            updated_at: scope.now,
            ..scope.counters
        }),
{
    match found {
        Some(b) if b.created_at >= scope.subscriber_created_at => {
            let after: Option<Exception> = next_exception(
                b.created_at,
                scope.counters.read_watermark,
                b.read_exception,
                true,
            );
            Ok(write_exception(scope, b.read_exception, after, HintReason::ReadState))
        },
        _ => Err(ApiError::not_found("no such broadcast")),
    }
}

/// Marks one broadcast as unread for this subscriber. The override survives
/// the read watermark.
pub fn mark_broadcast_unread(scope: &Scope, found: Option<BroadcastState>) -> (r: Result<
    Option<BroadcastChange>,
    ApiError,
>)
    ensures
        match r {
            Ok(change) => finds_broadcast(*scope, found) && change == broadcast_change(
                *scope,
                found->0.read_exception,
                read_after(*scope, found->0, false),
                HintReason::ReadState,
            ),
            Err(e) => !finds_broadcast(*scope, found) && e.is(
                ErrorCode::NotFound,
                "no such broadcast"@,
            ),
        },
        r is Ok <==> found is Some && found->0.created_at >= scope.subscriber_created_at,
        r matches Ok(change) ==> (change is None <==> match found->0.read_exception {
            Some(e) => !e.value,
            None => !(found->0.created_at <= scope.counters.read_watermark),
        }),
        r matches Ok(Some(c)) ==> match c.exception {
            Some(e) => !e.value && (found->0.created_at <= scope.counters.read_watermark),
            None => !(found->0.created_at <= scope.counters.read_watermark),
        },
        r matches Ok(Some(c)) ==> (c.exception matches Some(e) ==> e.broadcast_created_at
            == match found->0.read_exception {
            Some(before) => before.broadcast_created_at,
            None => found->0.created_at,
        }),
        r matches Ok(Some(c)) ==> c.hint == HintReason::ReadState && c.counters == (Counters {
            updated_at: scope.now,
            ..scope.counters
        }),
{
    match found {
        Some(b) if b.created_at >= scope.subscriber_created_at => {
            let after: Option<Exception> = next_exception(
                b.created_at,
                scope.counters.read_watermark,
                b.read_exception,
                false,
            );
            Ok(write_exception(scope, b.read_exception, after, HintReason::ReadState))
        },
        _ => Err(ApiError::not_found("no such broadcast")),
    }
}

/// Archives one broadcast for this subscriber.
pub fn archive_broadcast(scope: &Scope, found: Option<BroadcastState>) -> (r: Result<
    Option<BroadcastChange>,
    ApiError,
>)
    ensures
        match r {
            Ok(change) => finds_broadcast(*scope, found) && change == broadcast_change(
                *scope,
                found->0.archive_exception,
                archived_after(*scope, found->0, true),
                HintReason::ArchiveState,
            ),
            Err(e) => !finds_broadcast(*scope, found) && e.is(
                ErrorCode::NotFound,
                "no such broadcast"@,
            ),
        },
        r is Ok <==> found is Some && found->0.created_at >= scope.subscriber_created_at,
        r matches Ok(change) ==> (change is None <==> match found->0.archive_exception {
            Some(e) => e.value,
            None => (found->0.created_at <= scope.counters.archive_watermark),
        }),
        r matches Ok(Some(c)) ==> match c.exception {
            Some(e) => e.value && !(found->0.created_at <= scope.counters.archive_watermark),
            None => (found->0.created_at <= scope.counters.archive_watermark),
        },
        r matches Ok(Some(c)) ==> (c.exception matches Some(e) ==> e.broadcast_created_at
            == match found->0.archive_exception {
            Some(before) => before.broadcast_created_at,
            None => found->0.created_at,
        }),
        r matches Ok(Some(c)) ==> c.hint == HintReason::ArchiveState && c.counters == (Counters {
            updated_at: scope.now,
            ..scope.counters
        }),
{
    match found {
        Some(b) if b.created_at >= scope.subscriber_created_at => {
            let after: Option<Exception> = next_exception(
                b.created_at,
                scope.counters.archive_watermark,
                b.archive_exception,
                true,
            );
            Ok(write_exception(scope, b.archive_exception, after, HintReason::ArchiveState))
        },
        _ => Err(ApiError::not_found("no such broadcast")),
    }
}

/// Returns one broadcast to this subscriber's inbox. The override survives the
/// archive watermark.
pub fn unarchive_broadcast(scope: &Scope, found: Option<BroadcastState>) -> (r: Result<
    Option<BroadcastChange>,
    ApiError,
>)
    ensures
        match r {
            Ok(change) => finds_broadcast(*scope, found) && change == broadcast_change(
                *scope,
                found->0.archive_exception,
                archived_after(*scope, found->0, false),
                HintReason::ArchiveState,
            ),
            Err(e) => !finds_broadcast(*scope, found) && e.is(
                ErrorCode::NotFound,
                "no such broadcast"@,
            ),
        },
        r is Ok <==> found is Some && found->0.created_at >= scope.subscriber_created_at,
        r matches Ok(change) ==> (change is None <==> match found->0.archive_exception {
            Some(e) => !e.value,
            None => !(found->0.created_at <= scope.counters.archive_watermark),
        }),
        r matches Ok(Some(c)) ==> match c.exception {
            Some(e) => !e.value && (found->0.created_at <= scope.counters.archive_watermark),
            None => !(found->0.created_at <= scope.counters.archive_watermark),
        },
        r matches Ok(Some(c)) ==> (c.exception matches Some(e) ==> e.broadcast_created_at
            == match found->0.archive_exception {
            Some(before) => before.broadcast_created_at,
            None => found->0.created_at,
        }),
        r matches Ok(Some(c)) ==> c.hint == HintReason::ArchiveState && c.counters == (Counters {
            updated_at: scope.now,
            ..scope.counters
        }),
{
    match found {
        Some(b) if b.created_at >= scope.subscriber_created_at => {
            let after: Option<Exception> = next_exception(
                b.created_at,
                scope.counters.archive_watermark,
                b.archive_exception,
                false,
            );
            Ok(write_exception(scope, b.archive_exception, after, HintReason::ArchiveState))
        },
        _ => Err(ApiError::not_found("no such broadcast")),
    }
}

/// Timeline rows to append for every notification that a watermark passed:
/// visible after `after` and up to `upto`.
#[derive(Clone, Copy, Debug, PartialEq, Eq, Structural)]
pub struct TimelineWindow {
    pub status: TimelineStatus,
    pub after: i64,
    pub upto: i64,
}

/// The window that a watermark passed, if it moved forward.
pub open spec fn window_passed(status: TimelineStatus, from: i64, to: i64) -> Option<
    TimelineWindow,
> {
    if to > from {
        Some(TimelineWindow { status, after: from, upto: to })
    } else {
        None
    }
}

fn passed(status: TimelineStatus, from: i64, to: i64) -> (r: Option<TimelineWindow>)
    ensures
        r == window_passed(status, from, to),
{
    if to > from {
        Some(TimelineWindow { status, after: from, upto: to })
    } else {
        None
    }
}

/// What a request writes when it moves a watermark over the whole inbox.
#[derive(Debug)]
pub struct WatermarkMove {
    pub counters: Counters,
    pub timeline: Option<TimelineWindow>,
    /// Direct notifications whose overrides are cleared.
    pub cleared: Vec<u128>,
    /// Broadcasts whose exception rows are deleted.
    pub dropped: Vec<u128>,
    pub hint: HintReason,
}

/// A direct row after everything visible up to `watermark` was read.
pub open spec fn read_override_cleared(n: NotificationState, watermark: i64) -> NotificationState {
    if n.visible_at <= watermark {
        NotificationState { unread_at: None, ..n }
    } else {
        n
    }
}

/// A direct row after everything visible up to `watermark` was archived.
pub open spec fn archive_overrides_cleared(n: NotificationState, watermark: i64) -> NotificationState {
    if n.visible_at <= watermark {
        NotificationState { archived_at: None, unarchived_at: None, ..n }
    } else {
        n
    }
}

/// An exception row after a watermark passed everything up to it.
pub open spec fn exception_collected(e: Option<Exception>, watermark: i64) -> Option<Exception> {
    match e {
        Some(x) if x.broadcast_created_at > watermark => Some(x),
        _ => None,
    }
}

/// The rows of `notifications` that `f` changes, by id.
pub open spec fn changed_rows(
    notifications: Seq<Notification>,
    f: spec_fn(NotificationState) -> NotificationState,
) -> Seq<u128> {
    notifications.filter(|n: Notification| f(n.state) != n.state).map_values(
        |n: Notification| n.id,
    )
}

/// The rows of `exceptions` that a watermark collects, by broadcast id.
pub open spec fn collected_rows(exceptions: Seq<(u128, Exception)>, watermark: i64) -> Seq<u128> {
    exceptions.filter(
        |e: (u128, Exception)| exception_collected(Some(e.1), watermark) is None,
    ).map_values(|e: (u128, Exception)| e.0)
}

fn collect_exceptions(exceptions: &Vec<(u128, Exception)>, watermark: i64) -> (r: Vec<u128>)
    ensures
        r@ == collected_rows(exceptions@, watermark),
{
    let mut r: Vec<u128> = Vec::new();
    let mut i: usize = 0;
    proof {
        assert(r@ =~= collected_rows(exceptions@.take(0), watermark));
    }
    while i < exceptions.len()
        invariant
            i <= exceptions.len(),
            r@ == collected_rows(exceptions@.take(i as int), watermark),
        decreases exceptions.len() - i,
    {
        let e: (u128, Exception) = exceptions[i];
        let ghost before = r@;
        if e.1.broadcast_created_at <= watermark {
            r.push(e.0);
        }
        proof {
            let t = exceptions@.take(i + 1);
            assert(t.drop_last() =~= exceptions@.take(i as int));
            assert(t.last() == e);
            reveal_with_fuel(Seq::filter, 2);
            assert(r@ =~= collected_rows(t, watermark));
        }
        i = i + 1;
    }
    proof {
        assert(exceptions@.take(i as int) =~= exceptions@);
    }
    r
}

/// Marks every item, direct and broadcast, as read: the watermark moves to
/// `clock`, read under the lock, and the exceptions it passes are collected.
/// `overrides` are the subscriber's rows with an unread override, `exceptions`
/// the subscriber's read exceptions by broadcast.
pub fn mark_all_read(
    scope: &Scope,
    clock: i64,
    overrides: &Vec<Notification>,
    exceptions: &Vec<(u128, Exception)>,
) -> (r: WatermarkMove)
    ensures
        r.counters == (Counters {
            read_watermark: clock,
            unread_direct_count: 0,
            updated_at: clock,
            ..scope.counters
        }),
        r.timeline == window_passed(TimelineStatus::Read, scope.counters.read_watermark, clock),
        r.timeline is Some <==> clock > scope.counters.read_watermark,
        r.timeline matches Some(w) ==> w.status is Read && w.after == scope.counters.read_watermark
            && w.upto == clock,
        forall|id: u128| #[trigger]
            r.cleared@.contains(id) <==> exists|i: int|
                0 <= i < overrides@.len() && (#[trigger] overrides@[i]).id == id
                    && overrides@[i].state.unread_at is Some && overrides@[i].state.visible_at
                    <= clock,
        forall|id: u128| #[trigger]
            r.dropped@.contains(id) <==> exists|i: int|
                0 <= i < exceptions@.len() && (#[trigger] exceptions@[i]).0 == id
                    && exceptions@[i].1.broadcast_created_at <= clock,
        r.cleared@ == changed_rows(
            overrides@,
            |n: NotificationState| read_override_cleared(n, clock),
        ),
        r.dropped@ == collected_rows(exceptions@, clock),
        r.hint == HintReason::ReadState,
{
    let mut cleared: Vec<u128> = Vec::new();
    let ghost f = |n: NotificationState| read_override_cleared(n, clock);
    let mut i: usize = 0;
    proof {
        assert(cleared@ =~= changed_rows(overrides@.take(0), f));
    }
    while i < overrides.len()
        invariant
            i <= overrides.len(),
            f == |n: NotificationState| read_override_cleared(n, clock),
            cleared@ == changed_rows(overrides@.take(i as int), f),
        decreases overrides.len() - i,
    {
        let n: &Notification = &overrides[i];
        if n.state.unread_at.is_some() && n.state.visible_at <= clock {
            cleared.push(n.id);
        }
        proof {
            let t = overrides@.take(i + 1);
            assert(t.drop_last() =~= overrides@.take(i as int));
            assert(t.last() == n);
            reveal_with_fuel(Seq::filter, 2);
            assert(cleared@ =~= changed_rows(t, f));
        }
        i = i + 1;
    }
    proof {
        assert(overrides@.take(i as int) =~= overrides@);
        assert forall|id: u128| #[trigger] cleared@.contains(id) <==> exists|i: int|
            0 <= i < overrides@.len() && (#[trigger] overrides@[i]).id == id
                && overrides@[i].state.unread_at is Some && overrides@[i].state.visible_at
                <= clock by {
            marking_all_read_clears_the_overrides(overrides@, clock, id);
        }
        assert forall|id: u128| #[trigger] collected_rows(exceptions@, clock).contains(id)
            <==> exists|i: int|
            0 <= i < exceptions@.len() && (#[trigger] exceptions@[i]).0 == id
                && exceptions@[i].1.broadcast_created_at <= clock by {
            what_a_moved_watermark_drops(exceptions@, clock, id);
        }
    }
    WatermarkMove {
        counters: Counters {
            read_watermark: clock,
            unread_direct_count: 0,
            updated_at: clock,
            ..scope.counters
        },
        timeline: passed(TimelineStatus::Read, scope.counters.read_watermark, clock),
        cleared,
        dropped: collect_exceptions(exceptions, clock),
        hint: HintReason::ReadState,
    }
}

/// Archives every item, direct and broadcast: the archive watermark moves to
/// `clock`, read under the lock, and the exceptions it passes are collected.
/// Read state is untouched. `overrides` are the subscriber's rows with an
/// explicit archive state, `exceptions` the archive exceptions by broadcast.
pub fn archive_all(
    scope: &Scope,
    clock: i64,
    overrides: &Vec<Notification>,
    exceptions: &Vec<(u128, Exception)>,
) -> (r: WatermarkMove)
    ensures
        r.counters == (Counters {
            archive_watermark: clock,
            unread_direct_count: 0,
            updated_at: clock,
            ..scope.counters
        }),
        r.timeline is None,
        forall|id: u128| #[trigger]
            r.cleared@.contains(id) <==> exists|i: int|
                0 <= i < overrides@.len() && (#[trigger] overrides@[i]).id == id && (
                overrides@[i].state.archived_at is Some || overrides@[i].state.unarchived_at is Some)
                    && overrides@[i].state.visible_at <= clock,
        forall|id: u128| #[trigger]
            r.dropped@.contains(id) <==> exists|i: int|
                0 <= i < exceptions@.len() && (#[trigger] exceptions@[i]).0 == id
                    && exceptions@[i].1.broadcast_created_at <= clock,
        r.cleared@ == changed_rows(
            overrides@,
            |n: NotificationState| archive_overrides_cleared(n, clock),
        ),
        r.dropped@ == collected_rows(exceptions@, clock),
        r.hint == HintReason::ArchiveState,
{
    let mut cleared: Vec<u128> = Vec::new();
    let ghost f = |n: NotificationState| archive_overrides_cleared(n, clock);
    let mut i: usize = 0;
    proof {
        assert(cleared@ =~= changed_rows(overrides@.take(0), f));
    }
    while i < overrides.len()
        invariant
            i <= overrides.len(),
            f == |n: NotificationState| archive_overrides_cleared(n, clock),
            cleared@ == changed_rows(overrides@.take(i as int), f),
        decreases overrides.len() - i,
    {
        let n: &Notification = &overrides[i];
        if (n.state.archived_at.is_some() || n.state.unarchived_at.is_some()) && n.state.visible_at
            <= clock {
            cleared.push(n.id);
        }
        proof {
            let t = overrides@.take(i + 1);
            assert(t.drop_last() =~= overrides@.take(i as int));
            assert(t.last() == n);
            reveal_with_fuel(Seq::filter, 2);
            assert(cleared@ =~= changed_rows(t, f));
        }
        i = i + 1;
    }
    proof {
        assert(overrides@.take(i as int) =~= overrides@);
        assert forall|id: u128| #[trigger] cleared@.contains(id) <==> exists|i: int|
            0 <= i < overrides@.len() && (#[trigger] overrides@[i]).id == id && (
            overrides@[i].state.archived_at is Some || overrides@[i].state.unarchived_at is Some)
                && overrides@[i].state.visible_at <= clock by {
            archiving_all_clears_the_overrides(overrides@, clock, id);
        }
        assert forall|id: u128| #[trigger] collected_rows(exceptions@, clock).contains(id)
            <==> exists|i: int|
            0 <= i < exceptions@.len() && (#[trigger] exceptions@[i]).0 == id
                && exceptions@[i].1.broadcast_created_at <= clock by {
            what_a_moved_watermark_drops(exceptions@, clock, id);
        }
    }
    WatermarkMove {
        counters: Counters {
            archive_watermark: clock,
            unread_direct_count: 0,
            updated_at: clock,
            ..scope.counters
        },
        timeline: None,
        cleared,
        dropped: collect_exceptions(exceptions, clock),
        hint: HintReason::ArchiveState,
    }
}

/// Clears the unseen count without changing read state. Seen state is
/// watermark-only: no per-item seen, no exceptions.
pub fn mark_all_seen(scope: &Scope, clock: i64) -> (r: WatermarkMove)
    ensures
        r.counters == (Counters {
            seen_watermark: clock,
            unseen_direct_count: 0,
            updated_at: clock,
            ..scope.counters
        }),
        r.timeline == window_passed(TimelineStatus::Seen, scope.counters.seen_watermark, clock),
        r.timeline is Some <==> clock > scope.counters.seen_watermark,
        r.timeline matches Some(w) ==> w.status is Seen && w.after == scope.counters.seen_watermark
            && w.upto == clock,
        r.cleared@ == Seq::<u128>::empty(),
        r.dropped@ == Seq::<u128>::empty(),
        r.hint == HintReason::ReadState,
{
    WatermarkMove {
        counters: Counters {
            seen_watermark: clock,
            unseen_direct_count: 0,
            updated_at: clock,
            ..scope.counters
        },
        timeline: passed(TimelineStatus::Seen, scope.counters.seen_watermark, clock),
        cleared: Vec::new(),
        dropped: Vec::new(),
        hint: HintReason::ReadState,
    }
}

/// A queued job that archives every item that was read at `as_of`. Items that
/// arrive later are untouched.
#[derive(Clone, Copy, Debug, PartialEq, Eq, Structural)]
pub struct ArchiveReadJob {
    pub environment_id: u128,
    pub subscriber_id: u128,
    pub as_of: i64,
}

/// Archives every currently read item, asynchronously: `clock`, read under the
/// lock, freezes the item horizon.
pub fn archive_read(environment_id: u128, subscriber_id: u128, clock: i64) -> (r: ArchiveReadJob)
    ensures
        r == (ArchiveReadJob { environment_id, subscriber_id, as_of: clock }),
{
    ArchiveReadJob { environment_id, subscriber_id, as_of: clock }
}

/// The notification that a path names. A text that is no such id names none.
pub fn notification_id(raw: &str) -> (r: Result<u128, ApiError>)
    ensures
        match r {
            Ok(id) => typeid_value(NOTIFICATION@, raw@) == Some(id),
            Err(e) => typeid_value(NOTIFICATION@, raw@) is None && e.is(
                ErrorCode::NotFound,
                "no such notification"@,
            ),
        },
        r matches Ok(id) ==> raw@ == typeid_text("notif"@, id),
        r is Err ==> forall|id: u128| raw@ != #[trigger] typeid_text("notif"@, id),
{
    proof {
        assert forall|id: u128| typeid_value(NOTIFICATION@, raw@) == Some(id) <==> raw@
            == #[trigger] typeid_text("notif"@, id) by {
            typed_form_round_trips("notif"@, id, raw@);
        }
    }
    match parse_typeid(NOTIFICATION, raw) {
        Some(id) => Ok(id),
        None => Err(ApiError::not_found("no such notification")),
    }
}

/// The broadcast that a path names. A text that is no such id names none.
pub fn broadcast_id(raw: &str) -> (r: Result<u128, ApiError>)
    ensures
        match r {
            Ok(id) => typeid_value(BROADCAST@, raw@) == Some(id),
            Err(e) => typeid_value(BROADCAST@, raw@) is None && e.is(
                ErrorCode::NotFound,
                "no such broadcast"@,
            ),
        },
        r matches Ok(id) ==> raw@ == typeid_text("bcast"@, id),
        r is Err ==> forall|id: u128| raw@ != #[trigger] typeid_text("bcast"@, id),
{
    proof {
        assert forall|id: u128| typeid_value(BROADCAST@, raw@) == Some(id) <==> raw@
            == #[trigger] typeid_text("bcast"@, id) by {
            typed_form_round_trips("bcast"@, id, raw@);
        }
    }
    match parse_typeid(BROADCAST, raw) {
        Some(id) => Ok(id),
        None => Err(ApiError::not_found("no such broadcast")),
    }
}

} // verus!
