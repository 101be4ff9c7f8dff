use chimely::api::inbox::actions::{
    archive_all, archive_broadcast, archive_notification, archive_read, mark_all_read,
    mark_all_seen, mark_broadcast_read, mark_broadcast_unread, mark_notification_read,
    mark_notification_unread, unarchive_broadcast, unarchive_notification, HintReason,
    TimelineStatus,
};
use chimely::api::inbox::counts::{fetch_counts_for, get_filtered_counts};
use chimely::api::inbox::filters::{FilteredInboxCountsRequest, InboxCountFilter};
use chimely::api::inbox::items::{list_page, list_window, ListParams};
use chimely::api::inbox::list::{list_items_for, InboxFilter, ListWindow, MergedRow};
use chimely::api::inbox::reading::{broadcasts_are_enough, direct_is_enough};
use chimely::api::inbox::rows::{
    of_environment, of_subscriber, Broadcast, BroadcastState, Counters, DeliverJob, Exception,
    Notification, NotificationState, Owner, Preference, Scope,
};
use chimely::error::ErrorCode;
use chimely::http::routes::Endpoint;
use chimely::ids::{typeid, BROADCAST, NOTIFICATION};
use chimely::openapi::document::ApiDoc;
use chimely::outside::MAX_MICROS;
use serde_json::Value;

/// One subscriber's rows, changed the way the server changes them.
struct World {
    scope: Scope,
    notifications: Vec<Notification>,
    broadcasts: Vec<Broadcast>,
    next_id: u128,
}

fn copy(n: &Notification) -> Notification {
    Notification {
        id: n.id,
        category: n.category.clone(),
        state: n.state,
    }
}

fn copy_broadcast(b: &Broadcast) -> Broadcast {
    Broadcast {
        id: b.id,
        category: b.category.clone(),
        state: b.state,
    }
}

impl World {
    fn new() -> World {
        World {
            scope: Scope {
                now: 1000,
                subscriber_created_at: 0,
                counters: Counters {
                    read_watermark: i64::MIN,
                    seen_watermark: i64::MIN,
                    archive_watermark: i64::MIN,
                    unread_direct_count: 0,
                    unseen_direct_count: 0,
                    updated_at: 0,
                },
                preferences: vec![],
                deliver_jobs: vec![],
            },
            notifications: vec![],
            broadcasts: vec![],
            next_id: 1,
        }
    }

    fn tick(&mut self) {
        self.scope.now += 10;
    }

    fn muted(&self, category: &str) -> bool {
        self.scope
            .preferences
            .iter()
            .any(|p| p.category == category && p.channel == "in_app" && !p.enabled)
    }

    fn direct(&mut self, category: &str) -> usize {
        self.tick();
        let id = self.next_id;
        self.next_id += 1;
        self.notifications.push(Notification {
            id,
            category: category.to_owned(),
            state: NotificationState {
                visible_at: self.scope.now,
                read_at: None,
                unread_at: None,
                archived_at: None,
                unarchived_at: None,
            },
        });
        if !self.muted(category) {
            self.scope.counters.unread_direct_count += 1;
            self.scope.counters.unseen_direct_count += 1;
        }
        self.notifications.len() - 1
    }

    fn scheduled(&mut self, category: &str, at: i64) -> usize {
        self.tick();
        let id = self.next_id;
        self.next_id += 1;
        self.notifications.push(Notification {
            id,
            category: category.to_owned(),
            state: NotificationState {
                visible_at: at,
                read_at: None,
                unread_at: None,
                archived_at: None,
                unarchived_at: None,
            },
        });
        self.scope.deliver_jobs.push(DeliverJob {
            notification_ids: Some(vec![uuid::Uuid::from_u128(id).to_string()]),
            offset: None,
        });
        self.notifications.len() - 1
    }

    fn broadcast(&mut self, category: &str) -> usize {
        self.tick();
        let id = self.next_id;
        self.next_id += 1;
        self.broadcasts.push(Broadcast {
            id,
            category: category.to_owned(),
            state: BroadcastState {
                created_at: self.scope.now,
                read_exception: None,
                archive_exception: None,
            },
        });
        self.broadcasts.len() - 1
    }

    fn set_direct(&mut self, i: usize, state: &str) {
        self.tick();
        let n = Some(&self.notifications[i]);
        let change = match state {
            "read" => mark_notification_read(&self.scope, n),
            "unread" => mark_notification_unread(&self.scope, n),
            "archive" => archive_notification(&self.scope, n),
            "unarchive" => unarchive_notification(&self.scope, n),
            other => panic!("{other}"),
        };
        if let Some(c) = change.unwrap() {
            assert_eq!(c.counters.updated_at, self.scope.now);
            self.notifications[i].state = c.state;
            self.scope.counters = c.counters;
        }
    }

    fn set_broadcast(&mut self, i: usize, state: &str) {
        self.tick();
        let b = Some(self.broadcasts[i].state);
        match state {
            "read" | "unread" => {
                let change = if state == "read" {
                    mark_broadcast_read(&self.scope, b)
                } else {
                    mark_broadcast_unread(&self.scope, b)
                };
                if let Some(c) = change.unwrap() {
                    self.broadcasts[i].state.read_exception = c.exception;
                    self.scope.counters = c.counters;
                }
            }
            _ => {
                let change = if state == "archive" {
                    archive_broadcast(&self.scope, b)
                } else {
                    unarchive_broadcast(&self.scope, b)
                };
                if let Some(c) = change.unwrap() {
                    self.broadcasts[i].state.archive_exception = c.exception;
                    self.scope.counters = c.counters;
                }
            }
        }
    }

    fn set_both(&mut self, i: usize, j: usize, state: &str) {
        self.set_direct(i, state);
        self.set_broadcast(j, state);
    }

    fn exceptions(&self, archive: bool) -> Vec<(u128, Exception)> {
        self.broadcasts
            .iter()
            .filter_map(|b| {
                let e = if archive {
                    b.state.archive_exception
                } else {
                    b.state.read_exception
                };
                e.map(|e| (b.id, e))
            })
            .collect()
    }

    fn read_all(&mut self) {
        self.tick();
        let overrides: Vec<Notification> = self.notifications.iter().map(copy).collect();
        let m = mark_all_read(&self.scope, self.scope.now + 1, &overrides, &self.exceptions(false));
        for n in &mut self.notifications {
            if m.cleared.contains(&n.id) {
                n.state.unread_at = None;
            }
        }
        for b in &mut self.broadcasts {
            if m.dropped.contains(&b.id) {
                b.state.read_exception = None;
            }
        }
        self.scope.counters = m.counters;
        self.scope.now += 1;
    }

    fn archive_everything(&mut self) {
        self.tick();
        let overrides: Vec<Notification> = self.notifications.iter().map(copy).collect();
        let m = archive_all(&self.scope, self.scope.now + 1, &overrides, &self.exceptions(true));
        for n in &mut self.notifications {
            if m.cleared.contains(&n.id) {
                n.state.archived_at = None;
                n.state.unarchived_at = None;
            }
        }
        for b in &mut self.broadcasts {
            if m.dropped.contains(&b.id) {
                b.state.archive_exception = None;
            }
        }
        self.scope.counters = m.counters;
        self.scope.now += 1;
    }

    fn see_all(&mut self) {
        self.tick();
        let m = mark_all_seen(&self.scope, self.scope.now + 1);
        self.scope.counters = m.counters;
        self.scope.now += 1;
    }

    fn set_enabled(&mut self, category: &str, enabled: bool) {
        self.tick();
        self.scope.preferences.retain(|p| p.category != category);
        if !enabled {
            self.scope.preferences.push(Preference {
                category: category.to_owned(),
                channel: "in_app".to_owned(),
                enabled: false,
            });
        }
        self.rebuild();
    }

    /// The recount that follows a change of preferences.
    fn rebuild(&mut self) {
        let c = self.scope.counters;
        let counted: Vec<&Notification> = self
            .notifications
            .iter()
            .filter(|n| n.state.visible_at <= self.scope.now && !self.muted(&n.category))
            .collect();
        let unread = counted
            .iter()
            .filter(|n| !n.state.read(&c) && !n.state.archived(&c))
            .count();
        let unseen = counted
            .iter()
            .filter(|n| n.state.visible_at > c.seen_watermark)
            .count();
        self.scope.counters.unread_direct_count = unread as i32;
        self.scope.counters.unseen_direct_count = unseen as i32;
    }

    fn list(&self, filter: InboxFilter, cursor: (i64, u128), limit: i64) -> Vec<MergedRow> {
        list_items_for(
            &self.scope,
            self.notifications.iter().map(|n| (copy(n), Value::Null)).collect(),
            self.broadcasts.iter().map(|b| (copy_broadcast(b), Value::Null)).collect(),
            ListWindow {
                cursor_ts: cursor.0,
                cursor_id: cursor.1,
                limit,
                filter,
            },
        )
    }

    fn list_all(&self, filter: InboxFilter) -> Vec<MergedRow> {
        let mut all: Vec<MergedRow> = vec![];
        let mut cursor = (MAX_MICROS, u128::MAX);
        loop {
            let page = self.list(filter, cursor, 2);
            let full = page.len() == 2;
            if let Some(last) = page.last() {
                cursor = (last.occurred_at, last.id);
            }
            all.extend(page);
            if !full {
                return all;
            }
        }
    }

    /// The ids of a view, page by page, as a client that follows the cursors
    /// sees them.
    fn walk(&self, filter: Option<&str>, limit: i64) -> Vec<Vec<String>> {
        let mut pages = vec![];
        let mut cursor: Option<String> = None;
        loop {
            let window = list_window(&ListParams {
                cursor,
                limit: Some(limit),
                filter: filter.map(str::to_owned),
            })
            .unwrap();
            let page = list_page(
                &self.scope,
                self.notifications.iter().map(|n| (copy(n), Value::Null)).collect(),
                self.broadcasts.iter().map(|b| (copy_broadcast(b), Value::Null)).collect(),
                window,
            );
            pages.push(page.items.into_iter().map(|i| i.id).collect());
            match page.next_cursor {
                Some(next) => cursor = Some(next),
                None => return pages,
            }
        }
    }

    fn filtered(&self, filters: &[&[&str]]) -> Vec<i32> {
        let request = FilteredInboxCountsRequest {
            filters: filters
                .iter()
                .map(|f| InboxCountFilter {
                    categories: f.iter().map(|c| c.to_string()).collect(),
                })
                .collect(),
        };
        get_filtered_counts(&self.scope, &self.notifications, &self.broadcasts, request)
            .unwrap()
            .counts
            .iter()
            .map(|c| c.unread)
            .collect()
    }

    fn counts(&self) -> (i32, i32) {
        let c = fetch_counts_for(&self.scope, &self.broadcasts).unwrap();
        (c.unread, c.unseen)
    }

    /// List, counts and flags agree over both sources.
    fn check(&self) {
        let default = self.list_all(InboxFilter::Default);
        let unread = self.list_all(InboxFilter::Unread);
        let archived = self.list_all(InboxFilter::Archived);
        let expected: Vec<u128> = default.iter().filter(|r| !r.read).map(|r| r.id).collect();
        let got: Vec<u128> = unread.iter().map(|r| r.id).collect();
        assert_eq!(got, expected, "unread view");
        assert!(default.iter().all(|r| !r.archived));
        assert!(archived.iter().all(|r| r.archived));
        let ids = |rows: &[MergedRow]| -> Vec<String> {
            rows.iter()
                .map(|r| {
                    let prefix = if r.source == "notification" { NOTIFICATION } else { BROADCAST };
                    typeid(prefix, r.id)
                })
                .collect()
        };
        for limit in [1, 3, 100] {
            assert_eq!(self.walk(None, limit).concat(), ids(&default));
            assert_eq!(self.walk(Some("unread"), limit).concat(), ids(&unread));
            assert_eq!(self.walk(Some("archived"), limit).concat(), ids(&archived));
        }
        for pair in default.windows(2) {
            assert!(
                (pair[0].occurred_at, pair[0].id) > (pair[1].occurred_at, pair[1].id),
                "newest first"
            );
        }
        assert_eq!(self.counts().0 as usize, unread.len(), "unread count");
        let c = self.scope.counters;
        let unseen = default
            .iter()
            .chain(&archived)
            .filter(|r| r.occurred_at > c.seen_watermark)
            .count();
        assert_eq!(self.counts().1 as usize, unseen, "unseen count");
        for category in ["cat_a", "cat_b", "cat_c"] {
            let n = unread.iter().filter(|r| r.category == category).count();
            assert_eq!(self.filtered(&[&[category]]), [n as i32], "{category}");
        }
    }
}

#[test]
fn category_filters_are_exact_batched_and_ordered() {
    let mut w = World::new();
    w.direct("billing");
    w.direct("system");
    w.direct("billing.detail");
    w.broadcast("billing");
    w.broadcast("refund");
    w.scheduled("future", MAX_MICROS);
    assert_eq!(
        w.filtered(&[
            &["billing"],
            &["billing", "refund"],
            &["missing"],
            &["billing", "billing"],
            &["future"],
        ]),
        [2, 3, 0, 2, 0]
    );
}

#[test]
fn filtered_counts_follow_read_archive_and_mute_state_for_both_sources() {
    let mut w = World::new();
    let d = w.direct("target.direct");
    let b = w.broadcast("target.broadcast");
    let filters: &[&[&str]] = &[
        &["target.direct"],
        &["target.broadcast"],
        &["target.direct", "target.broadcast"],
    ];
    assert_eq!(w.filtered(filters), [1, 1, 2]);
    w.set_both(d, b, "read");
    assert_eq!(w.filtered(filters), [0, 0, 0]);
    w.set_both(d, b, "unread");
    assert_eq!(w.filtered(filters), [1, 1, 2]);
    w.read_all();
    assert_eq!(w.filtered(filters), [0, 0, 0]);
    w.set_both(d, b, "unread");
    assert_eq!(
        w.filtered(filters),
        [1, 1, 2],
        "explicit unread exceptions below the watermark count"
    );
    w.set_both(d, b, "archive");
    assert_eq!(w.filtered(filters), [0, 0, 0]);
    w.set_both(d, b, "unarchive");
    assert_eq!(w.filtered(filters), [1, 1, 2]);
    w.archive_everything();
    assert_eq!(w.filtered(filters), [0, 0, 0]);
    w.set_both(d, b, "unarchive");
    assert_eq!(
        w.filtered(filters),
        [1, 1, 2],
        "explicit unarchive exceptions below the watermark count"
    );
    w.set_enabled("target.direct", false);
    w.set_enabled("target.broadcast", false);
    assert_eq!(w.filtered(filters), [0, 0, 0]);
    w.set_enabled("target.direct", true);
    assert_eq!(w.filtered(filters), [1, 0, 1]);
}

#[test]
fn filtered_counts_respect_broadcast_visibility_and_environment_isolation() {
    let mut w = World::new();
    w.broadcast("shared.category");
    w.scope.subscriber_created_at = w.scope.now + 1;
    let filter: &[&[&str]] = &[&["shared.category"]];
    assert_eq!(
        w.filtered(filter),
        [0],
        "broadcasts from before subscriber creation stay invisible"
    );
    w.broadcast("shared.category");
    assert_eq!(w.filtered(filter), [1]);
    // One table holds the rows of both environments.
    let mut other = World::new();
    other.direct("shared.category");
    other.broadcast("shared.category");
    let owner = |environment_id| Owner { environment_id, subscriber_id: 7 };
    let count = |environment_id: u128, scope: &Scope| {
        let table = |id: u128, from: &World| -> Vec<(Owner, Notification)> {
            from.notifications.iter().map(|n| (owner(id), copy(n))).collect()
        };
        let wide = |id: u128, from: &World| -> Vec<(u128, Broadcast)> {
            from.broadcasts.iter().map(|b| (id, copy_broadcast(b))).collect()
        };
        let direct: Vec<(Owner, Notification)> =
            table(1, &w).into_iter().chain(table(2, &other)).collect();
        let broadcasts: Vec<(u128, Broadcast)> =
            wide(1, &w).into_iter().chain(wide(2, &other)).collect();
        let request = FilteredInboxCountsRequest {
            filters: vec![InboxCountFilter {
                categories: vec!["shared.category".to_owned()],
            }],
        };
        let direct = of_subscriber(owner(environment_id), direct);
        let broadcasts = of_environment(environment_id, broadcasts);
        get_filtered_counts(scope, &direct, &broadcasts, request).unwrap().counts[0].unread
    };
    assert_eq!(count(2, &other.scope), 2);
    assert_eq!(count(1, &w.scope), 1, "rows from another environment never contribute");
    assert_eq!(count(3, &w.scope), 0);
}

#[test]
fn filtered_count_validation_is_bounded_and_declared() {
    let w = World::new();
    let e = get_filtered_counts(
        &w.scope,
        &w.notifications,
        &w.broadcasts,
        FilteredInboxCountsRequest { filters: vec![] },
    )
    .unwrap_err();
    assert_eq!(e.code.status(), 400);
    assert_eq!(e.code.as_str(), "invalid_request");
    let declared = ApiDoc::statuses(Endpoint::GetFilteredCounts).expect("filtered counts operation");
    assert!(ApiDoc::operations().contains(&Endpoint::GetFilteredCounts));
    assert_eq!(Endpoint::GetFilteredCounts.path(), "/v1/inbox/counts");
    assert!(declared.contains(&400));
}

#[test]
fn following_the_cursors_shows_each_item_once() {
    let mut w = World::new();
    assert_eq!(w.walk(None, 2), [Vec::<String>::new()], "an empty view is one empty page");
    let d = w.direct("cat_a");
    w.broadcast("cat_b");
    w.direct("cat_a");
    w.broadcast("cat_a");
    let all = w.walk(None, 100);
    assert_eq!((all.len(), all[0].len()), (1, 4));
    // A full last page has no cursor.
    assert_eq!(w.walk(None, 4), all);
    let halves = w.walk(None, 2);
    assert_eq!((halves.len(), halves.concat()), (2, all[0].clone()));
    assert_eq!(w.walk(None, 1).len(), 4);
    let thirds = w.walk(None, 3);
    assert_eq!((thirds[0].len(), thirds[1].len()), (3, 1));
    w.set_direct(d, "archive");
    assert_eq!(w.walk(None, 1).len(), 3);
    assert_eq!(w.walk(Some("archived"), 1).concat(), [typeid(NOTIFICATION, w.notifications[d].id)]);
}

#[test]
fn reading_stops_where_a_page_has_enough() {
    let mut w = World::new();
    for _ in 0..4 {
        w.direct("cat_a");
        w.broadcast("cat_b");
    }
    let window = |limit| ListWindow {
        cursor_ts: MAX_MICROS,
        cursor_id: u128::MAX,
        limit,
        filter: InboxFilter::Default,
    };
    // Newest first, one source at a time.
    let direct = |n: usize| -> Vec<(Notification, Value)> {
        w.notifications.iter().rev().take(n).map(|n| (copy(n), Value::Null)).collect()
    };
    let wide = |n: usize| -> Vec<(Broadcast, Value)> {
        w.broadcasts.iter().rev().take(n).map(|b| (copy_broadcast(b), Value::Null)).collect()
    };
    assert!(!direct_is_enough(&w.scope, &window(2), &direct(2)));
    assert!(direct_is_enough(&w.scope, &window(2), &direct(3)));
    assert!(!broadcasts_are_enough(&w.scope, &window(2), &wide(2)));
    assert!(broadcasts_are_enough(&w.scope, &window(2), &wide(3)));
    let read = list_page(&w.scope, direct(3), wide(3), window(2));
    let all = list_page(&w.scope, direct(4), wide(4), window(2));
    let ids = |items: &[chimely::api::inbox::items::InboxItem]| -> Vec<String> {
        items.iter().map(|i| i.id.clone()).collect()
    };
    assert_eq!(ids(&read.items), ids(&all.items));
    assert_eq!(read.next_cursor, all.next_cursor);
    assert!(read.next_cursor.is_some());
}

#[test]
fn list_counts_and_read_state_agree_over_interleavings() {
    let categories = ["cat_a", "cat_b", "cat_c"];
    for seed in 1..60u64 {
        let mut w = World::new();
        let mut x = seed.wrapping_mul(0x9e37_79b9_7f4a_7c15);
        for _ in 0..40 {
            x ^= x << 13;
            x ^= x >> 7;
            x ^= x << 17;
            let pick = (x >> 8) as usize;
            let category = categories[pick % 3];
            let directs: Vec<usize> = (0..w.notifications.len())
                .filter(|i| w.notifications[*i].state.visible_at <= w.scope.now)
                .collect();
            match x % 16 {
                0 | 1 => {
                    w.direct(category);
                }
                2 => {
                    w.scheduled(category, MAX_MICROS);
                }
                3 | 4 => {
                    w.broadcast(category);
                }
                k @ 5..=8 => {
                    if !directs.is_empty() {
                        let i = directs[pick % directs.len()];
                        w.set_direct(i, ["read", "unread", "archive", "unarchive"][k as usize - 5]);
                    }
                }
                k @ 9..=12 => {
                    if !w.broadcasts.is_empty() {
                        let i = pick % w.broadcasts.len();
                        w.set_broadcast(i, ["read", "unread", "archive", "unarchive"][k as usize - 9]);
                    }
                }
                13 => match pick % 3 {
                    0 => w.read_all(),
                    1 => w.see_all(),
                    _ => w.archive_everything(),
                },
                _ => w.set_enabled(category, pick % 2 == 0),
            }
            w.check();
        }
    }
}

#[test]
fn a_scheduled_item_is_counted_only_once_delivered() {
    let mut w = World::new();
    let at = w.scope.now + 100;
    let i = w.scheduled("cat_a", at);
    let e = mark_notification_read(&w.scope, Some(&w.notifications[i])).unwrap_err();
    assert_eq!(e.code, ErrorCode::NotFound);
    w.scope.now = at + 1;
    // Visible, but its delivery has not run yet: listed, not counted.
    assert_eq!(w.list_all(InboxFilter::Default).len(), 1);
    assert_eq!(w.counts(), (0, 0));
    let c = mark_notification_read(&w.scope, Some(&w.notifications[i])).unwrap().unwrap();
    assert_eq!(c.counters.unread_direct_count, 0);
    // A job that has finished it owns it no longer.
    w.scope.deliver_jobs[0].offset = Some(1);
    w.scope.counters.unread_direct_count = 1;
    let c = mark_notification_read(&w.scope, Some(&w.notifications[i])).unwrap().unwrap();
    assert_eq!(c.counters.unread_direct_count, 0);
    // A job whose payload holds no list owns nothing.
    w.scope.deliver_jobs[0].offset = None;
    w.scope.deliver_jobs[0].notification_ids = None;
    let c = mark_notification_read(&w.scope, Some(&w.notifications[i])).unwrap().unwrap();
    assert_eq!(c.counters.unread_direct_count, 0);
}

#[test]
fn marking_read_writes_the_timeline_and_a_hint() {
    let mut w = World::new();
    let i = w.direct("cat_a");
    w.tick();
    let c = mark_notification_read(&w.scope, Some(&w.notifications[i])).unwrap().unwrap();
    assert_eq!(c.timeline, Some(TimelineStatus::Read));
    assert_eq!(c.timeline.unwrap().as_str(), "read");
    assert_eq!(c.hint, HintReason::ReadState);
    assert_eq!(c.hint.as_str(), "read_state");
    assert_eq!(c.state.read_at, Some(w.scope.now));
    w.set_direct(i, "read");
    let again = mark_notification_read(&w.scope, Some(&w.notifications[i])).unwrap();
    assert_eq!(again, None);
    let c = mark_notification_unread(&w.scope, Some(&w.notifications[i])).unwrap().unwrap();
    assert_eq!(c.timeline, None);
    assert_eq!(c.state.unread_at, None);
    assert_eq!(c.counters.unread_direct_count, 1);
    let c = archive_notification(&w.scope, Some(&w.notifications[i])).unwrap().unwrap();
    assert_eq!(c.hint.as_str(), "archive_state");
}

#[test]
fn unread_overrides_outrank_the_watermark_until_it_moves() {
    let mut w = World::new();
    let i = w.direct("cat_a");
    let j = w.broadcast("cat_a");
    w.read_all();
    w.set_both(i, j, "unread");
    assert_eq!(w.notifications[i].state.unread_at, Some(w.scope.now - 10));
    assert_eq!(w.broadcasts[j].state.read_exception.map(|e| e.value), Some(false));
    assert_eq!(w.counts().0, 2);
    w.read_all();
    assert_eq!(w.notifications[i].state.unread_at, None);
    assert_eq!(w.broadcasts[j].state.read_exception, None);
    assert_eq!(w.counts().0, 0);
    w.check();
}

#[test]
fn watermarks_collect_only_what_they_pass() {
    let mut w = World::new();
    let j = w.broadcast("cat_a");
    w.set_broadcast(j, "read");
    let clock = w.broadcasts[j].state.created_at - 1;
    let m = mark_all_read(&w.scope, clock, &vec![], &w.exceptions(false));
    assert!(m.dropped.is_empty());
    let clock = w.broadcasts[j].state.created_at;
    let m = mark_all_read(&w.scope, clock, &vec![], &w.exceptions(false));
    assert_eq!(m.dropped, [w.broadcasts[j].id]);
    let t = m.timeline.unwrap();
    assert_eq!((t.status, t.after, t.upto), (TimelineStatus::Read, i64::MIN, clock));
    w.scope.counters.read_watermark = clock;
    assert_eq!(mark_all_read(&w.scope, clock, &vec![], &vec![]).timeline, None);
    let m = mark_all_seen(&w.scope, clock);
    assert_eq!(m.timeline.unwrap().status.as_str(), "seen");
    assert_eq!(m.counters.unseen_direct_count, 0);
    let m = archive_all(&w.scope, clock, &vec![], &vec![]);
    assert_eq!((m.timeline, m.hint), (None, HintReason::ArchiveState));
    assert_eq!(m.counters.archive_watermark, clock);
}

#[test]
fn a_counter_at_its_limit_fails() {
    let mut w = World::new();
    let i = w.direct("cat_a");
    w.set_direct(i, "read");
    w.scope.counters.unread_direct_count = i32::MAX;
    let e = mark_notification_unread(&w.scope, Some(&w.notifications[i])).unwrap_err();
    assert_eq!((e.code, e.message.as_str()), (ErrorCode::Internal, "internal error"));
    w.broadcast("cat_a");
    let e = fetch_counts_for(&w.scope, &w.broadcasts).unwrap_err();
    assert_eq!(e.code.status(), 500);
    w.scope.counters.unread_direct_count = -5;
    assert_eq!(fetch_counts_for(&w.scope, &w.broadcasts).unwrap().unread, 0);
}

#[test]
fn missing_and_invisible_items_are_not_found() {
    let mut w = World::new();
    let j = w.broadcast("cat_a");
    for e in [
        mark_notification_unread(&w.scope, None).unwrap_err(),
        archive_notification(&w.scope, None).unwrap_err(),
        unarchive_notification(&w.scope, None).unwrap_err(),
    ] {
        assert_eq!((e.code, e.message.as_str()), (ErrorCode::NotFound, "no such notification"));
    }
    w.scope.subscriber_created_at = w.scope.now + 1;
    let b = Some(w.broadcasts[j].state);
    for e in [
        mark_broadcast_read(&w.scope, b).unwrap_err(),
        mark_broadcast_unread(&w.scope, b).unwrap_err(),
        archive_broadcast(&w.scope, None).unwrap_err(),
        unarchive_broadcast(&w.scope, b).unwrap_err(),
    ] {
        assert_eq!((e.code, e.message.as_str()), (ErrorCode::NotFound, "no such broadcast"));
    }
}

#[test]
fn repeated_broadcast_requests_change_nothing() {
    let mut w = World::new();
    let j = w.broadcast("cat_a");
    for state in ["read", "unread", "archive", "unarchive"] {
        w.set_broadcast(j, state);
        let before = (w.broadcasts[j].state, w.scope.counters);
        w.set_broadcast(j, state);
        assert_eq!((w.broadcasts[j].state, w.scope.counters), before, "{state}");
    }
}

#[test]
fn archiving_what_is_read_freezes_the_horizon() {
    let job = archive_read(1, 2, 77);
    assert_eq!((job.environment_id, job.subscriber_id, job.as_of), (1, 2, 77));
}

#[test]
fn ties_are_broken_by_id_and_pages_never_overlap() {
    let mut w = World::new();
    for _ in 0..5 {
        w.direct("cat_a");
        w.broadcast("cat_b");
    }
    for n in &mut w.notifications {
        n.state.visible_at = 500;
    }
    for b in &mut w.broadcasts {
        b.state.created_at = 500;
    }
    let ids: Vec<u128> = w.list_all(InboxFilter::Default).iter().map(|r| r.id).collect();
    assert_eq!(ids, [10, 9, 8, 7, 6, 5, 4, 3, 2, 1]);
    let page = w.list(InboxFilter::Default, (500, 4), 100);
    let ids: Vec<u128> = page.iter().map(|r| r.id).collect();
    assert_eq!(ids, [3, 2, 1]);
    assert_eq!(page[0].source, "notification");
    assert_eq!(page[1].source, "broadcast");
}

#[test]
fn bulk_moves_leave_the_other_count() {
    let filled = || {
        let mut w = World::new();
        w.direct("cat_a");
        w.broadcast("cat_b");
        w.direct("cat_b");
        assert_eq!(w.counts(), (3, 3));
        w
    };
    let mut w = filled();
    w.read_all();
    assert_eq!(w.counts(), (0, 3));
    let mut w = filled();
    w.archive_everything();
    assert_eq!(w.counts(), (0, 3));
    let mut w = filled();
    w.see_all();
    assert_eq!(w.counts(), (3, 0));
}
