//! The rows that an inbox is made of, and what they mean together.
//!
//! Instants are microseconds since the Unix epoch; identifiers are 128-bit.

use vstd::prelude::*;
use super::flags::{what_keeps_a_delivery_pending, what_mutes_a_category};
use crate::outside::uuid_hyphenated;
use crate::text::{same, u128_hyphenated};

verus! {

/// A subscriber's counters row: three watermarks, the maintained direct
/// counters and the instant of the last change.
#[derive(Clone, Copy, Debug, PartialEq, Eq, Structural)]
pub struct Counters {
    pub read_watermark: i64,
    pub seen_watermark: i64,
    pub archive_watermark: i64,
    pub unread_direct_count: i32,
    pub unseen_direct_count: i32,
    pub updated_at: i64,
}

/// The state columns of a direct notification.
#[derive(Clone, Copy, Debug, PartialEq, Eq, Structural)]
pub struct NotificationState {
    /// Ordering timestamp; in the future for a scheduled row.
    pub visible_at: i64,
    /// Explicitly read.
    pub read_at: Option<i64>,
    /// Explicitly unread: outranks the read watermark.
    pub unread_at: Option<i64>,
    /// Explicitly archived.
    pub archived_at: Option<i64>,
    /// Explicitly unarchived: outranks the archive watermark.
    pub unarchived_at: Option<i64>,
}

impl NotificationState {
    /// Read: explicitly, or by the watermark with no unread override.
    pub open spec fn is_read(self, c: Counters) -> bool {
        self.read_at is Some || (self.unread_at is None && self.visible_at <= c.read_watermark)
    }

    /// Archived: explicitly, or by the watermark with no unarchive override.
    pub open spec fn is_archived(self, c: Counters) -> bool {
        self.archived_at is Some || (self.unarchived_at is None && self.visible_at
            <= c.archive_watermark)
    }

    /// Whether the row is effectively read.
    pub fn read(&self, c: &Counters) -> (r: bool)
        ensures
            r == self.is_read(*c),
            r <==> self.read_at is Some || (self.unread_at is None && self.visible_at
                <= c.read_watermark),
    {
        self.read_at.is_some() || (self.unread_at.is_none() && self.visible_at <= c.read_watermark)
    }

    /// Whether the row is effectively archived.
    pub fn archived(&self, c: &Counters) -> (r: bool)
        ensures
            r == self.is_archived(*c),
            r <==> self.archived_at is Some || (self.unarchived_at is None && self.visible_at
                <= c.archive_watermark),
    {
        self.archived_at.is_some() || (self.unarchived_at.is_none() && self.visible_at
            <= c.archive_watermark)
    }
}

/// A direct notification without its payload.
#[derive(Debug)]
pub struct Notification {
    pub id: u128,
    pub category: String,
    pub state: NotificationState,
}

/// A subscriber's exception for one broadcast. It copies the broadcast's
/// creation instant, by which it is collected once a watermark passes it.
#[derive(Clone, Copy, Debug, PartialEq, Eq, Structural)]
pub struct Exception {
    pub broadcast_created_at: i64,
    pub value: bool,
}

/// A broadcast's state for one subscriber.
#[derive(Clone, Copy, Debug, PartialEq, Eq, Structural)]
pub struct BroadcastState {
    /// Ordering timestamp.
    pub created_at: i64,
    /// Explicitly read (`true`) or unread (`false`).
    pub read_exception: Option<Exception>,
    /// Explicitly archived (`true`) or unarchived (`false`).
    pub archive_exception: Option<Exception>,
}

impl BroadcastState {
    /// Each exception copies this broadcast's creation instant.
    pub open spec fn wf(self) -> bool {
        &&& self.read_exception matches Some(e) ==> e.broadcast_created_at == self.created_at
        &&& self.archive_exception matches Some(e) ==> e.broadcast_created_at == self.created_at
    }

    /// Read: the exception decides, else the watermark.
    pub open spec fn is_read(self, c: Counters) -> bool {
        match self.read_exception {
            Some(e) => e.value,
            None => self.created_at <= c.read_watermark,
        }
    }

    /// Archived: the exception decides, else the watermark.
    pub open spec fn is_archived(self, c: Counters) -> bool {
        match self.archive_exception {
            Some(e) => e.value,
            None => self.created_at <= c.archive_watermark,
        }
    }

    /// Whether the broadcast is effectively read.
    pub fn read(&self, c: &Counters) -> (r: bool)
        ensures
            r == self.is_read(*c),
            self.read_exception matches Some(e) ==> r == e.value,
            self.read_exception is None ==> (r <==> self.created_at <= c.read_watermark),
    {
        match self.read_exception {
            Some(e) => e.value,
            None => self.created_at <= c.read_watermark,
        }
    }

    /// Whether the broadcast is effectively archived.
    pub fn archived(&self, c: &Counters) -> (r: bool)
        ensures
            r == self.is_archived(*c),
            self.archive_exception matches Some(e) ==> r == e.value,
            self.archive_exception is None ==> (r <==> self.created_at <= c.archive_watermark),
    {
        match self.archive_exception {
            Some(e) => e.value,
            None => self.created_at <= c.archive_watermark,
        }
    }
}

/// A broadcast without its payload, with one subscriber's exceptions.
#[derive(Debug)]
pub struct Broadcast {
    pub id: u128,
    pub category: String,
    pub state: BroadcastState,
}

/// One explicit preference of a subscriber.
#[derive(Debug)]
pub struct Preference {
    pub category: String,
    pub channel: String,
    pub enabled: bool,
}

impl Preference {
    /// Whether this row mutes `category` in the inbox.
    pub open spec fn mutes(self, category: Seq<char>) -> bool {
        self.category@ == category && self.channel@ == "in_app"@ && !self.enabled
    }
}

/// Whether a subscriber's preferences mute `category`. Absence means enabled.
pub open spec fn is_muted(preferences: Seq<Preference>, category: Seq<char>) -> bool {
    exists|i: int| 0 <= i < preferences.len() && (#[trigger] preferences[i]).mutes(category)
}

/// Whether a subscriber's preferences mute `category`.
pub fn muted(preferences: &Vec<Preference>, category: &str) -> (r: bool)
    ensures
        r == is_muted(preferences@, category@),
        r <==> exists|i: int|
            0 <= i < preferences@.len() && (#[trigger] preferences@[i]).category@ == category@
                && preferences@[i].channel@ == "in_app"@ && !preferences@[i].enabled,
{
    proof {
        what_mutes_a_category(preferences@, category@);
    }
    let mut i: usize = 0;
    while i < preferences.len()
        invariant
            i <= preferences.len(),
            forall|j: int| 0 <= j < i ==> !(#[trigger] preferences@[j]).mutes(category@),
        decreases preferences.len() - i,
    {
        let p: &Preference = &preferences[i];
        if !p.enabled && same(p.category.as_str(), category) && same(p.channel.as_str(), "in_app") {
            assert(preferences@[i as int].mutes(category@));
            return true;
        }
        i = i + 1;
    }
    false
}

/// A queued delivery: the notifications it delivers, in order, and how many
/// of them it has finished.
#[derive(Debug)]
pub struct DeliverJob {
    /// Hyphenated identifiers; `None` when the payload holds no such list.
    pub notification_ids: Option<Vec<String>>,
    pub offset: Option<i64>,
}

impl DeliverJob {
    /// How many leading notifications the job has finished.
    pub open spec fn finished(self) -> int {
        match self.offset {
            Some(n) => n as int,
            None => 0,
        }
    }

    /// Whether the job has yet to deliver `id`.
    pub open spec fn owns(self, id: u128) -> bool {
        self.notification_ids matches Some(ids) && exists|k: int|
            0 <= k < ids@.len() && k >= self.finished() && (#[trigger] ids@[k])@
                == u128_hyphenated(id)
    }
}

/// Whether a delivery still owns `id`: its counter bump has not run.
pub open spec fn is_pending(jobs: Seq<DeliverJob>, id: u128) -> bool {
    exists|i: int| 0 <= i < jobs.len() && (#[trigger] jobs[i]).owns(id)
}

fn job_owns(job: &DeliverJob, name: &str, id: u128) -> (r: bool)
    requires
        name@ == u128_hyphenated(id),
    ensures
        r == job.owns(id),
{
    let done: i128 = match job.offset {
        Some(n) => n as i128,
        None => 0,
    };
    match &job.notification_ids {
        None => false,
        Some(ids) => {
            let mut k: usize = 0;
            while k < ids.len()
                invariant
                    k <= ids.len(),
                    done == job.finished(),
                    job.notification_ids == Some(*ids),
                    name@ == u128_hyphenated(id),
                    forall|j: int|
                        0 <= j < k && j >= job.finished() ==> (#[trigger] ids@[j])@
                            != u128_hyphenated(id),
                decreases ids.len() - k,
            {
                if (k as i128) >= done && same(ids[k].as_str(), name) {
                    assert(k >= job.finished());
                    assert(job.notification_ids->0@[k as int]@ == u128_hyphenated(id));
                    return true;
                }
                k = k + 1;
            }
            false
        },
    }
}

/// Whether a deliver job still owns this notification: its counter bump has
/// not run. The shared guard of every per-item counter change.
pub fn pending_deliver(jobs: &Vec<DeliverJob>, id: u128) -> (r: bool)
    ensures
        r == is_pending(jobs@, id),
        r <==> exists|i: int, k: int|
            0 <= i < jobs@.len() && (#[trigger] jobs@[i]).notification_ids is Some && 0 <= k
                < jobs@[i].notification_ids->0@.len() && (
            #[trigger] jobs@[i].notification_ids->0@[k])@ == u128_hyphenated(id) && (
            jobs@[i].offset matches Some(n) ==> k >= n),
{
    proof {
        what_keeps_a_delivery_pending(jobs@, id);
    }
    let name: String = uuid_hyphenated(id);
    let mut i: usize = 0;
    while i < jobs.len()
        invariant
            i <= jobs.len(),
            name@ == u128_hyphenated(id),
            forall|j: int| 0 <= j < i ==> !(#[trigger] jobs@[j]).owns(id),
        decreases jobs.len() - i,
    {
        if job_owns(&jobs[i], name.as_str(), id) {
            assert(jobs@[i as int].owns(id));
            return true;
        }
        i = i + 1;
    }
    false
}

/// One subscriber at one instant: what every inbox decision reads besides the
/// items themselves.
#[derive(Debug)]
pub struct Scope {
    pub now: i64,
    pub subscriber_created_at: i64,
    pub counters: Counters,
    pub preferences: Vec<Preference>,
    pub deliver_jobs: Vec<DeliverJob>,
}

impl Scope {
    /// Muted by the subscriber.
    pub open spec fn mutes(self, category: Seq<char>) -> bool {
        is_muted(self.preferences@, category)
    }

    /// Whether the maintained unread counter holds one for `n`: delivered,
    /// not muted, not archived, not read.
    pub open spec fn counts(self, n: Notification) -> bool {
        &&& !is_pending(self.deliver_jobs@, n.id)
        &&& !self.mutes(n.category@)
        &&& !n.state.is_archived(self.counters)
        &&& !n.state.is_read(self.counters)
    }

    /// Whether the subscriber's inbox holds `n` yet.
    pub open spec fn shows_notification(self, n: Notification) -> bool {
        n.state.visible_at <= self.now
    }

    /// Whether the subscriber's inbox holds a broadcast: only those created
    /// since the subscriber was.
    pub open spec fn shows_broadcast(self, b: BroadcastState) -> bool {
        b.created_at >= self.subscriber_created_at
    }
}

/// Whose row it is: a subscriber within an environment.
#[derive(Clone, Copy, Debug, PartialEq, Eq, Structural)]
pub struct Owner {
    pub environment_id: u128,
    pub subscriber_id: u128,
}

/// The rows of one owner, in order.
pub open spec fn rows_of<K, T>(owner: K, rows: Seq<(K, T)>) -> Seq<T> {
    rows.filter(|r: (K, T)| r.0 == owner).map_values(|r: (K, T)| r.1)
}

/// One more row is one more row of its owner, and of nobody else.
pub proof fn one_more_row_goes_to_its_owner<K, T>(owner: K, rows: Seq<(K, T)>, row: (K, T))
    ensures
        rows_of(owner, rows.push(row)) == if row.0 == owner {
            rows_of(owner, rows).push(row.1)
        } else {
            rows_of(owner, rows)
        },
{
    reveal(Seq::filter);
    assert(rows.push(row).drop_last() =~= rows);
    if row.0 == owner {
        assert(rows_of(owner, rows.push(row)) =~= rows_of(owner, rows).push(row.1));
    }
}

/// What a subscriber owns of these rows.
pub fn of_subscriber<T>(owner: Owner, rows: Vec<(Owner, T)>) -> (r: Vec<T>)
    ensures
        r@ == rows_of(owner, rows@),
{
    let ghost all = rows@;
    let mut r: Vec<T> = Vec::new();
    proof {
        reveal(Seq::filter);
        assert(rows_of(owner, all.take(0)) =~= Seq::<T>::empty());
    }
    for row in it: rows
        invariant
            it.seq() == all,
            r@ == rows_of(owner, all.take(it.index())),
    {
        proof {
            one_more_row_goes_to_its_owner(owner, all.take(it.index()), row);
            assert(all.take(it.index() + 1) =~= all.take(it.index()).push(row));
        }
        if row.0 == owner {
            r.push(row.1);
        }
    }
    proof {
        assert(all.take(all.len() as int) =~= all);
    }
    r
}

/// What an environment owns of these rows.
pub fn of_environment<T>(environment_id: u128, rows: Vec<(u128, T)>) -> (r: Vec<T>)
    ensures
        r@ == rows_of(environment_id, rows@),
{
    let ghost all = rows@;
    let mut r: Vec<T> = Vec::new();
    proof {
        reveal(Seq::filter);
        assert(rows_of(environment_id, all.take(0)) =~= Seq::<T>::empty());
    }
    for row in it: rows
        invariant
            it.seq() == all,
            r@ == rows_of(environment_id, all.take(it.index())),
    {
        proof {
            one_more_row_goes_to_its_owner(environment_id, all.take(it.index()), row);
            assert(all.take(it.index() + 1) =~= all.take(it.index()).push(row));
        }
        if row.0 == environment_id {
            r.push(row.1);
        }
    }
    proof {
        assert(all.take(all.len() as int) =~= all);
    }
    r
}

/// Rows of another owner never contribute.
pub proof fn rows_of_others_never_contribute<K, T>(
    owner: K,
    rows: Seq<(K, T)>,
    others: Seq<(K, T)>,
)
    requires
        forall|i: int| 0 <= i < others.len() ==> (#[trigger] others[i]).0 != owner,
    ensures
        rows_of(owner, rows + others) == rows_of(owner, rows),
    decreases others.len(),
{
    if others.len() > 0 {
        let short = others.drop_last();
        assert forall|i: int| 0 <= i < short.len() implies (#[trigger] short[i]).0 != owner by {
            assert(short[i] == others[i]);
        }
        rows_of_others_never_contribute(owner, rows, short);
        assert(rows + others =~= (rows + short).push(others.last()));
        assert(others[others.len() - 1].0 != owner);
        one_more_row_goes_to_its_owner(owner, rows + short, others.last());
    } else {
        assert(rows + others =~= rows);
    }
}

} // verus!
