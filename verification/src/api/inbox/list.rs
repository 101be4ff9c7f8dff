//! The merged list: newest first, `(occurred_at, id)` keyset, id tiebreaker.

use vstd::prelude::*;
use vstd::multiset::Multiset;
use super::rows::{is_muted, muted, Broadcast, Notification, Scope};
use super::shown::{a_listed_row_is_that_of_an_item, a_page_holds_the_newest_rows};
use crate::text::same;

verus! {

/// The page size when the request names none.
pub const DEFAULT_PAGE_SIZE: i64 = 20;

/// The largest page size.
pub const MAX_PAGE_SIZE: i64 = 100;

/// Server-side list views.
#[derive(Clone, Copy, Debug, PartialEq, Eq, Structural)]
pub enum InboxFilter {
    Default,
    Unread,
    Archived,
}

impl InboxFilter {
    /// The view that a request names, if there is one of that name.
    pub open spec fn named(raw: Option<Seq<char>>) -> Option<InboxFilter> {
        match raw {
            None => Some(InboxFilter::Default),
            Some(name) => if name == "unread"@ {
                Some(InboxFilter::Unread)
            } else if name == "archived"@ {
                Some(InboxFilter::Archived)
            } else {
                None
            },
        }
    }

    /// The view's name.
    pub open spec fn text(self) -> Seq<char> {
        match self {
            InboxFilter::Default => "default"@,
            InboxFilter::Unread => "unread"@,
            InboxFilter::Archived => "archived"@,
        }
    }

    /// Whether the view holds an item with this read and archive state.
    pub open spec fn admits(self, read: bool, archived: bool) -> bool {
        match self {
            InboxFilter::Default => !archived,
            InboxFilter::Unread => !archived && !read,
            InboxFilter::Archived => archived,
        }
    }

    /// The view that a request names. Without a name it is the default view;
    /// an unknown name is none.
    pub fn parse(raw: Option<&str>) -> (r: Option<InboxFilter>)
        ensures
            r == InboxFilter::named(
                match raw {
                    Some(s) => Some(s@),
                    None => None,
                },
            ),
            raw is None ==> r == Some(InboxFilter::Default),
            raw matches Some(s) ==> (r == Some(InboxFilter::Unread) <==> s@ == "unread"@),
            raw matches Some(s) ==> (r == Some(InboxFilter::Archived) <==> s@ == "archived"@),
            raw matches Some(s) ==> (r is None <==> s@ != "unread"@ && s@ != "archived"@),
    {
        proof {
            reveal_strlit("unread");
            reveal_strlit("archived");
            assert("unread"@.len() != "archived"@.len());
        }
        match raw {
            None => Some(InboxFilter::Default),
            Some(s) => if same(s, "unread") {
                Some(InboxFilter::Unread)
            } else if same(s, "archived") {
                Some(InboxFilter::Archived)
            } else {
                None
            },
        }
    }

    /// The view's name.
    pub fn as_str(self) -> (r: &'static str)
        ensures
            r@ == self.text(),
            self is Default ==> r@ == "default"@,
            self is Unread ==> r@ == "unread"@,
            self is Archived ==> r@ == "archived"@,
    {
        match self {
            InboxFilter::Default => "default",
            InboxFilter::Unread => "unread",
            InboxFilter::Archived => "archived",
        }
    }

    fn holds(self, read: bool, archived: bool) -> (r: bool)
        ensures
            r == self.admits(read, archived),
            r <==> (archived <==> self is Archived) && !(read && self is Unread),
    {
        match self {
            InboxFilter::Default => !archived,
            InboxFilter::Unread => !archived && !read,
            InboxFilter::Archived => archived,
        }
    }
}

/// Keyset window and view filter for one page of the merged list.
/// `(cursor_ts, cursor_id)` is the last item of the previous page.
#[derive(Clone, Copy, Debug)]
pub struct ListWindow {
    pub cursor_ts: i64,
    pub cursor_id: u128,
    pub limit: i64,
    pub filter: InboxFilter,
}

impl ListWindow {
    /// Strictly below the cursor.
    pub open spec fn below(self, ts: i64, id: u128) -> bool {
        ts < self.cursor_ts || (ts == self.cursor_ts && id < self.cursor_id)
    }

    fn is_below(&self, ts: i64, id: u128) -> (r: bool)
        ensures
            r == self.below(ts, id),
            r <==> ts < self.cursor_ts || (ts == self.cursor_ts && id < self.cursor_id),
    {
        ts < self.cursor_ts || (ts == self.cursor_ts && id < self.cursor_id)
    }
}

/// One row of the merged two-source inbox.
#[derive(Debug)]
pub struct MergedRow {
    pub source: &'static str,
    pub id: u128,
    pub category: String,
    pub payload: serde_json::Value,
    pub occurred_at: i64,
    pub read: bool,
    pub archived: bool,
}

impl MergedRow {
    /// Ordered before `other`: later, or as late with the greater id.
    pub open spec fn newer(self, other: MergedRow) -> bool {
        self.occurred_at > other.occurred_at || (self.occurred_at == other.occurred_at && self.id
            > other.id)
    }

    fn is_newer(&self, other: &MergedRow) -> (r: bool)
        ensures
            r == self.newer(*other),
            r <==> self.occurred_at > other.occurred_at || (self.occurred_at == other.occurred_at
                && self.id > other.id),
    {
        self.occurred_at > other.occurred_at || (self.occurred_at == other.occurred_at && self.id
            > other.id)
    }
}

/// Whether the list shows this notification: visible, not muted, in the view
/// and in the window.
pub open spec fn lists_notification(s: Scope, w: ListWindow, n: Notification) -> bool {
    &&& s.shows_notification(n)
    &&& !s.mutes(n.category@)
    &&& w.filter.admits(n.state.is_read(s.counters), n.state.is_archived(s.counters))
    &&& w.below(n.state.visible_at, n.id)
}

/// Whether the list shows this broadcast.
pub open spec fn lists_broadcast(s: Scope, w: ListWindow, b: Broadcast) -> bool {
    &&& s.shows_broadcast(b.state)
    &&& !s.mutes(b.category@)
    &&& w.filter.admits(b.state.is_read(s.counters), b.state.is_archived(s.counters))
    &&& w.below(b.state.created_at, b.id)
}

/// Whether the list shows this notification.
pub fn notification_is_listed(scope: &Scope, window: &ListWindow, n: &Notification) -> (r: bool)
    ensures
        r == lists_notification(*scope, *window, *n),
        r <==> n.state.visible_at <= scope.now && !is_muted(scope.preferences@, n.category@) && (
        window.filter is Archived <==> n.state.is_archived(scope.counters)) && (
        window.filter is Unread ==> !n.state.is_read(scope.counters)) && (n.state.visible_at
            < window.cursor_ts || (n.state.visible_at == window.cursor_ts && n.id
            < window.cursor_id)),
{
    n.state.visible_at <= scope.now && window.filter.holds(
        n.state.read(&scope.counters),
        n.state.archived(&scope.counters),
    ) && window.is_below(n.state.visible_at, n.id) && !muted(
        &scope.preferences,
        n.category.as_str(),
    )
}

/// Whether the list shows this broadcast.
pub fn broadcast_is_listed(scope: &Scope, window: &ListWindow, b: &Broadcast) -> (r: bool)
    ensures
        r == lists_broadcast(*scope, *window, *b),
        r <==> b.state.created_at >= scope.subscriber_created_at && !is_muted(
            scope.preferences@,
            b.category@,
        ) && (window.filter is Archived <==> b.state.is_archived(scope.counters)) && (
        window.filter is Unread ==> !b.state.is_read(scope.counters)) && (b.state.created_at
            < window.cursor_ts || (b.state.created_at == window.cursor_ts && b.id
            < window.cursor_id)),
{
    b.state.created_at >= scope.subscriber_created_at && window.filter.holds(
        b.state.read(&scope.counters),
        b.state.archived(&scope.counters),
    ) && window.is_below(b.state.created_at, b.id) && !muted(
        &scope.preferences,
        b.category.as_str(),
    )
}

/// A notification as a merged row.
pub open spec fn notification_row(s: Scope, n: (Notification, serde_json::Value)) -> MergedRow {
    MergedRow {
        source: "notification",
        id: n.0.id,
        category: n.0.category,
        payload: n.1,
        occurred_at: n.0.state.visible_at,
        read: n.0.state.is_read(s.counters),
        archived: n.0.state.is_archived(s.counters),
    }
}

/// A broadcast as a merged row.
pub open spec fn broadcast_row(s: Scope, b: (Broadcast, serde_json::Value)) -> MergedRow {
    MergedRow {
        source: "broadcast",
        id: b.0.id,
        category: b.0.category,
        payload: b.1,
        occurred_at: b.0.state.created_at,
        read: b.0.state.is_read(s.counters),
        archived: b.0.state.is_archived(s.counters),
    }
}

/// The rows of the direct arm.
pub open spec fn direct_arm(
    s: Scope,
    w: ListWindow,
    notifications: Seq<(Notification, serde_json::Value)>,
) -> Seq<MergedRow> {
    notifications.filter(
        |n: (Notification, serde_json::Value)| lists_notification(s, w, n.0),
    ).map_values(|n: (Notification, serde_json::Value)| notification_row(s, n))
}

/// The rows of the broadcast arm.
pub open spec fn broadcast_arm(
    s: Scope,
    w: ListWindow,
    broadcasts: Seq<(Broadcast, serde_json::Value)>,
) -> Seq<MergedRow> {
    broadcasts.filter(
        |b: (Broadcast, serde_json::Value)| lists_broadcast(s, w, b.0),
    ).map_values(|b: (Broadcast, serde_json::Value)| broadcast_row(s, b))
}

/// Newest first.
pub open spec fn newest_first(rows: Seq<MergedRow>) -> bool {
    forall|i: int, j: int| 0 <= i < j < rows.len() ==> !(#[trigger] rows[j]).newer(#[trigger] rows[i])
}

/// No row of `rest` is newer than a row of `page`.
pub open spec fn none_newer(rest: Multiset<MergedRow>, page: Seq<MergedRow>) -> bool {
    forall|x: MergedRow, i: int|
        rest.contains(x) && 0 <= i < page.len() ==> !(#[trigger] x.newer(#[trigger] page[i]))
}

/// `page` holds the newest `limit` rows of `rows`, newest first.
pub open spec fn is_page(page: Seq<MergedRow>, rows: Multiset<MergedRow>, limit: int) -> bool {
    &&& newest_first(page)
    &&& page.len() == if rows.len() < limit {
        rows.len() as int
    } else {
        limit
    }
    &&& page.to_multiset().subset_of(rows)
    &&& none_newer(rows.sub(page.to_multiset()), page)
}

proof fn lemma_insert_multiset(s: Seq<MergedRow>, i: int, x: MergedRow)
    requires
        0 <= i <= s.len(),
    ensures
        s.insert(i, x).to_multiset() == s.to_multiset().insert(x),
{
    broadcast use vstd::seq_lib::group_to_multiset_ensures;
    broadcast use vstd::multiset::group_multiset_axioms;

    let t = s.insert(i, x);
    assert(t.remove(i) =~= s);
    assert(t[i] == x);
    vstd::seq_lib::to_multiset_remove(t, i);
    assert(t.contains(x));
    assert(t.to_multiset() =~= s.to_multiset().insert(x));
}

/// Puts `row` in its place on the page, and off the page goes what no longer
/// fits.
fn insert_row(page: &mut Vec<MergedRow>, row: MergedRow, limit: usize, rows: Ghost<
    Multiset<MergedRow>,
>)
    requires
        is_page(old(page)@, rows@, limit as int),
    ensures
        is_page(final(page)@, rows@.insert(row), limit as int),
{
    broadcast use vstd::seq_lib::group_to_multiset_ensures;
    broadcast use vstd::multiset::group_multiset_axioms;

    let ghost before = page@;
    let mut i: usize = 0;
    while i < page.len() && !row.is_newer(&page[i])
        invariant
            i <= page.len(),
            page@ == before,
            forall|j: int| 0 <= j < i ==> !row.newer(#[trigger] page@[j]),
        decreases page.len() - i,
    {
        i = i + 1;
    }
    page.insert(i, row);
    let ghost wide = page@;
    let ghost rest = rows@.sub(before.to_multiset());
    proof {
        lemma_insert_multiset(before, i as int, row);
        assert(wide == before.insert(i as int, row));
        assert forall|a: int, b: int| 0 <= a < b < wide.len() implies !(#[trigger] wide[b]).newer(
            #[trigger] wide[a],
        ) by {
            let a0 = if a < i { a } else { a - 1 };
            let b0 = if b < i { b } else { b - 1 };
            if a != i && b != i {
                assert(!before[b0].newer(before[a0]));
            } else if a == i {
                assert(row.newer(before[i as int]));
                assert(b0 == i || !before[b0].newer(before[i as int]));
            }
        }
        assert(rows@.insert(row).sub(wide.to_multiset()) =~= rest);
    }
    if page.len() > limit {
        let gone: Option<MergedRow> = page.pop();
        proof {
            let last = wide.last();
            assert(page@ =~= wide.drop_last());
            assert(wide.remove(wide.len() - 1) =~= wide.drop_last());
            vstd::seq_lib::to_multiset_remove(wide, wide.len() - 1);
            let out = rows@.insert(row).sub(page@.to_multiset());
            assert forall|x: MergedRow, k: int|
                out.contains(x) && 0 <= k < page@.len() implies !(#[trigger] x.newer(
                #[trigger] page@[k],
            )) by {
                assert(page@[k] == wide[k]);
                if x == last {
                    assert(!wide[wide.len() - 1].newer(wide[k]));
                } else {
                    assert(rest.contains(x));
                    if k == i {
                        // The row was inserted before an older row of a full page.
                        assert(i < before.len());
                        assert(row.newer(before[i as int]));
                        assert(!x.newer(before[i as int]));
                    } else {
                        let k0 = if k < i { k } else { k - 1 };
                        assert(wide[k] == before[k0]);
                        assert(!x.newer(before[k0]));
                    }
                }
            }
        }
    } else {
        proof {
            assert(rest.len() == 0);
            assert forall|x: MergedRow| !rest.contains(x) by {
                if rest.contains(x) {
                    vstd::multiset::axiom_count_le_len(rest, x);
                }
            }
        }
    }
}

pub(crate) proof fn lemma_same_size_contained(a: Multiset<MergedRow>, b: Multiset<MergedRow>)
    requires
        a.len() == b.len(),
        forall|x: MergedRow| #[trigger] a.count(x) <= b.count(x),
    ensures
        a == b,
{
    broadcast use vstd::multiset::group_multiset_axioms;

    let d = b.sub(a);
    assert(a.subset_of(b));
    assert(d.len() == 0);
    assert forall|x: MergedRow| a.count(x) == b.count(x) by {
        vstd::multiset::axiom_count_le_len(d, x);
    }
    assert(a =~= b);
}

proof fn lemma_rest_of_arm_stays_below(
    page: Seq<MergedRow>,
    arm_page: Seq<MergedRow>,
    other_page: Seq<MergedRow>,
    arm: Multiset<MergedRow>,
    limit: int,
)
    requires
        is_page(arm_page, arm, limit),
        other_page.len() <= limit,
        is_page(page, arm_page.to_multiset().add(other_page.to_multiset()), limit),
    ensures
        none_newer(arm.sub(arm_page.to_multiset()), page),
{
    broadcast use vstd::seq_lib::group_to_multiset_ensures;
    broadcast use vstd::multiset::group_multiset_axioms;

    let both = arm_page.to_multiset().add(other_page.to_multiset());
    let dropped = both.sub(page.to_multiset());
    let rest = arm.sub(arm_page.to_multiset());
    assert forall|x: MergedRow, i: int| rest.contains(x) && 0 <= i < page.len() implies !(
    #[trigger] x.newer(#[trigger] page[i])) by {
        vstd::multiset::axiom_count_le_len(rest, x);
        assert(arm_page.len() == limit);
        assert(page.len() == limit);
        if forall|y: MergedRow|
            #[trigger] arm_page.to_multiset().count(y) <= page.to_multiset().count(y) {
            lemma_same_size_contained(arm_page.to_multiset(), page.to_multiset());
            assert(page.contains(page[i]));
            vstd::seq_lib::to_multiset_contains(page, page[i]);
            vstd::seq_lib::to_multiset_contains(arm_page, page[i]);
            let k = choose|k: int| 0 <= k < arm_page.len() && arm_page[k] == page[i];
            assert(!x.newer(arm_page[k]));
        } else {
            let y = choose|y: MergedRow|
                #[trigger] arm_page.to_multiset().count(y) > page.to_multiset().count(y);
            assert(dropped.contains(y));
            assert(!y.newer(page[i]));
            assert(arm_page.contains(y));
            let k = choose|k: int| 0 <= k < arm_page.len() && arm_page[k] == y;
            assert(!x.newer(arm_page[k]));
        }
    }
}

/// Limiting each arm on its own and then merging loses nothing: the newest
/// rows of the two limited arms are the newest rows of the whole.
pub proof fn limiting_the_arms_loses_nothing(
    page: Seq<MergedRow>,
    a_page: Seq<MergedRow>,
    b_page: Seq<MergedRow>,
    a: Multiset<MergedRow>,
    b: Multiset<MergedRow>,
    limit: int,
)
    requires
        limit >= 0,
        is_page(a_page, a, limit),
        is_page(b_page, b, limit),
        is_page(page, a_page.to_multiset().add(b_page.to_multiset()), limit),
    ensures
        is_page(page, a.add(b), limit),
{
    broadcast use vstd::seq_lib::group_to_multiset_ensures;
    broadcast use vstd::multiset::group_multiset_axioms;

    let both = a_page.to_multiset().add(b_page.to_multiset());
    let dropped = both.sub(page.to_multiset());
    let rest_a = a.sub(a_page.to_multiset());
    let rest_b = b.sub(b_page.to_multiset());
    lemma_rest_of_arm_stays_below(page, a_page, b_page, a, limit);
    assert(both =~= b_page.to_multiset().add(a_page.to_multiset()));
    lemma_rest_of_arm_stays_below(page, b_page, a_page, b, limit);
    let out = a.add(b).sub(page.to_multiset());
    assert forall|x: MergedRow, i: int| out.contains(x) && 0 <= i < page.len() implies !(
    #[trigger] x.newer(#[trigger] page[i])) by {
        assert(out.count(x) == dropped.count(x) + rest_a.count(x) + rest_b.count(x));
        if dropped.contains(x) {
        } else if rest_a.contains(x) {
        } else {
            assert(rest_b.contains(x));
        }
    }
}

proof fn lemma_nothing_left(rows: Multiset<MergedRow>, left: Seq<MergedRow>)
    requires
        left.len() == 0,
    ensures
        rows.add(left.to_multiset()) == rows,
{
    broadcast use vstd::seq_lib::group_to_multiset_ensures;
    broadcast use vstd::multiset::group_multiset_axioms;

    assert(left.to_multiset() =~= Multiset::<MergedRow>::empty());
    assert(rows.add(left.to_multiset()) =~= rows);
}

proof fn lemma_row_taken(rows: Multiset<MergedRow>, left: Seq<MergedRow>, row: MergedRow)
    ensures
        rows.add(left.push(row).to_multiset()) == rows.insert(row).add(left.to_multiset()),
{
    broadcast use vstd::seq_lib::group_to_multiset_ensures;
    broadcast use vstd::multiset::group_multiset_axioms;

    assert(rows.add(left.push(row).to_multiset()) =~= rows.insert(row).add(left.to_multiset()));
}

fn direct_page(
    scope: &Scope,
    window: &ListWindow,
    notifications: Vec<(Notification, serde_json::Value)>,
    limit: usize,
) -> (r: Vec<MergedRow>)
    ensures
        is_page(r@, direct_arm(*scope, *window, notifications@).to_multiset(), limit as int),
{
    broadcast use vstd::seq_lib::group_to_multiset_ensures;
    broadcast use vstd::multiset::group_multiset_axioms;

    let mut left: Vec<(Notification, serde_json::Value)> = notifications;
    let mut page: Vec<MergedRow> = Vec::new();
    let ghost mut rows: Multiset<MergedRow> = Multiset::empty();
    let ghost all = direct_arm(*scope, *window, notifications@).to_multiset();
    proof {
        assert(page@.to_multiset() =~= Multiset::<MergedRow>::empty());
        assert(rows.add(all) =~= all);
    }
    loop
        invariant
            is_page(page@, rows, limit as int),
            rows.add(direct_arm(*scope, *window, left@).to_multiset()) == all,
        ensures
            is_page(page@, all, limit as int),
        decreases left.len(),
    {
        let ghost arm = direct_arm(*scope, *window, left@);
        let ghost shorter = left@.drop_last();
        match left.pop() {
            None => {
                proof {
                    lemma_nothing_left(rows, arm);
                }
                break;
            },
            Some((n, payload)) => {
                let read: bool = n.state.read(&scope.counters);
                let archived: bool = n.state.archived(&scope.counters);
                let listed: bool = notification_is_listed(scope, window, &n);
                let ghost row = notification_row(*scope, (n, payload));
                proof {
                    reveal_with_fuel(Seq::filter, 2);
                    let next = direct_arm(*scope, *window, shorter);
                    if listed {
                        assert(arm =~= next.push(row));
                        lemma_row_taken(rows, next, row);
                    } else {
                        assert(arm =~= next);
                    }
                }
                if listed {
                    insert_row(
                        &mut page,
                        MergedRow {
                            source: "notification",
                            id: n.id,
                            category: n.category,
                            payload,
                            occurred_at: n.state.visible_at,
                            read,
                            archived,
                        },
                        limit,
                        Ghost(rows),
                    );
                    proof {
                        rows = rows.insert(row);
                    }
                }
            },
        }
    }
    page
}

fn broadcast_page(
    scope: &Scope,
    window: &ListWindow,
    broadcasts: Vec<(Broadcast, serde_json::Value)>,
    limit: usize,
) -> (r: Vec<MergedRow>)
    ensures
        is_page(r@, broadcast_arm(*scope, *window, broadcasts@).to_multiset(), limit as int),
{
    broadcast use vstd::seq_lib::group_to_multiset_ensures;
    broadcast use vstd::multiset::group_multiset_axioms;

    let mut left: Vec<(Broadcast, serde_json::Value)> = broadcasts;
    let mut page: Vec<MergedRow> = Vec::new();
    let ghost mut rows: Multiset<MergedRow> = Multiset::empty();
    let ghost all = broadcast_arm(*scope, *window, broadcasts@).to_multiset();
    proof {
        assert(page@.to_multiset() =~= Multiset::<MergedRow>::empty());
        assert(rows.add(all) =~= all);
    }
    loop
        invariant
            is_page(page@, rows, limit as int),
            rows.add(broadcast_arm(*scope, *window, left@).to_multiset()) == all,
        ensures
            is_page(page@, all, limit as int),
        decreases left.len(),
    {
        let ghost arm = broadcast_arm(*scope, *window, left@);
        let ghost shorter = left@.drop_last();
        match left.pop() {
            None => {
                proof {
                    lemma_nothing_left(rows, arm);
                }
                break;
            },
            Some((b, payload)) => {
                let read: bool = b.state.read(&scope.counters);
                let archived: bool = b.state.archived(&scope.counters);
                let listed: bool = broadcast_is_listed(scope, window, &b);
                let ghost row = broadcast_row(*scope, (b, payload));
                proof {
                    reveal_with_fuel(Seq::filter, 2);
                    let next = broadcast_arm(*scope, *window, shorter);
                    if listed {
                        assert(arm =~= next.push(row));
                        lemma_row_taken(rows, next, row);
                    } else {
                        assert(arm =~= next);
                    }
                }
                if listed {
                    insert_row(
                        &mut page,
                        MergedRow {
                            source: "broadcast",
                            id: b.id,
                            category: b.category,
                            payload,
                            occurred_at: b.state.created_at,
                            read,
                            archived,
                        },
                        limit,
                        Ghost(rows),
                    );
                    proof {
                        rows = rows.insert(row);
                    }
                }
            },
        }
    }
    page
}

fn merge(a: Vec<MergedRow>, b: Vec<MergedRow>, limit: usize) -> (r: Vec<MergedRow>)
    requires
        is_page(a@, a@.to_multiset(), limit as int),
    ensures
        is_page(r@, a@.to_multiset().add(b@.to_multiset()), limit as int),
{
    broadcast use vstd::seq_lib::group_to_multiset_ensures;
    broadcast use vstd::multiset::group_multiset_axioms;

    let ghost all = a@.to_multiset().add(b@.to_multiset());
    let ghost mut rows: Multiset<MergedRow> = a@.to_multiset();
    let mut page: Vec<MergedRow> = a;
    let mut left: Vec<MergedRow> = b;
    loop
        invariant
            is_page(page@, rows, limit as int),
            rows.add(left@.to_multiset()) == all,
        ensures
            is_page(page@, all, limit as int),
        decreases left.len(),
    {
        let ghost before = left@;
        match left.pop() {
            None => {
                proof {
                    lemma_nothing_left(rows, left@);
                }
                break;
            },
            Some(row) => {
                proof {
                    assert(before =~= left@.push(row));
                    lemma_row_taken(rows, left@, row);
                }
                insert_row(&mut page, row, limit, Ghost(rows));
                proof {
                    rows = rows.insert(row);
                }
            },
        }
    }
    page
}

/// The canonical merged list: each arm is limited on its own, then both are
/// merged, newest first. `notifications` are the subscriber's, `broadcasts`
/// the environment's, each with its payload.
pub fn list_items_for(
    scope: &Scope,
    notifications: Vec<(Notification, serde_json::Value)>,
    broadcasts: Vec<(Broadcast, serde_json::Value)>,
    window: ListWindow,
) -> (r: Vec<MergedRow>)
    requires
        0 <= window.limit <= usize::MAX,
    ensures
        is_page(
            r@,
            (direct_arm(*scope, window, notifications@) + broadcast_arm(
                *scope,
                window,
                broadcasts@,
            )).to_multiset(),
            window.limit as int,
        ),
        forall|i: int, j: int|
            0 <= i < j < r@.len() ==> (#[trigger] r@[i]).occurred_at > (
            #[trigger] r@[j]).occurred_at || (r@[i].occurred_at == r@[j].occurred_at && r@[i].id
                >= r@[j].id),
        forall|i: int|
            0 <= i < r@.len() ==> ((#[trigger] r@[i]).occurred_at < window.cursor_ts || (
            r@[i].occurred_at == window.cursor_ts && r@[i].id < window.cursor_id)) && (r@[i].archived
                <==> window.filter is Archived) && (window.filter is Unread ==> !r@[i].read),
{
    broadcast use vstd::seq_lib::group_to_multiset_ensures;
    broadcast use vstd::multiset::group_multiset_axioms;

    let limit: usize = window.limit as usize;
    let ghost direct_rows = direct_arm(*scope, window, notifications@);
    let ghost broadcast_rows = broadcast_arm(*scope, window, broadcasts@);
    let a: Vec<MergedRow> = direct_page(scope, &window, notifications, limit);
    let b: Vec<MergedRow> = broadcast_page(scope, &window, broadcasts, limit);
    proof {
        assert(a@.to_multiset().sub(a@.to_multiset()) =~= Multiset::<MergedRow>::empty());
    }
    let ghost a_page = a@;
    let ghost b_page = b@;
    let page: Vec<MergedRow> = merge(a, b, limit);
    proof {
        limiting_the_arms_loses_nothing(
            page@,
            a_page,
            b_page,
            direct_rows.to_multiset(),
            broadcast_rows.to_multiset(),
            limit as int,
        );
        vstd::seq_lib::lemma_multiset_commutative(direct_rows, broadcast_rows);
        let rows = direct_rows + broadcast_rows;
        assert forall|i: int, j: int| 0 <= i < j < page@.len() implies (
        #[trigger] page@[i]).occurred_at > (#[trigger] page@[j]).occurred_at || (page@[i].occurred_at
            == page@[j].occurred_at && page@[i].id >= page@[j].id) by {
            a_page_holds_the_newest_rows(page@, rows, limit as int, i, j, page@[i]);
        }
        assert forall|i: int| 0 <= i < page@.len() implies ((#[trigger] page@[i]).occurred_at
            < window.cursor_ts || (page@[i].occurred_at == window.cursor_ts && page@[i].id
            < window.cursor_id)) && (page@[i].archived <==> window.filter is Archived) && (
        window.filter is Unread ==> !page@[i].read) by {
            a_page_holds_the_newest_rows(page@, rows, limit as int, i, i, page@[i]);
            a_listed_row_is_that_of_an_item(*scope, window, notifications@, broadcasts@, page@[i]);
        }
    }
    page
}

} // verus!
