//! Walks through a view: page after page, from the first to the last.

use vstd::prelude::*;
use super::items::{the_cursor_asks_for_the_next_page, InboxPage, ListParams};
use super::list::{is_page, newest_first, ListWindow, MergedRow};
use super::pages::{
    a_page_is_determined, a_shorter_page_is_the_head, instants_exist, keys_are_distinct,
    lemma_listed_instants_exist, lemma_page_row_counts, lemma_page_row_stands_once, listed_rows,
    next_window, the_last_page_holds_the_rest, the_next_page_continues,
    the_page_size_is_no_part_of_the_view,
};
use super::rows::{Broadcast, Notification, Scope};

verus! {

/// A walk through a view: each page is followed by the page of the window
/// after its last row, until there is no row beyond.
pub open spec fn is_walk(
    pages: Seq<Seq<MergedRow>>,
    s: Scope,
    w: ListWindow,
    notifications: Seq<(Notification, serde_json::Value)>,
    broadcasts: Seq<(Broadcast, serde_json::Value)>,
) -> bool
    decreases pages.len(),
{
    let rows = listed_rows(s, w, notifications, broadcasts);
    if pages.len() == 0 {
        false
    } else {
        &&& is_page(pages.first(), rows.to_multiset(), w.limit as int)
        &&& if rows.len() > w.limit {
            is_walk(
                pages.drop_first(),
                s,
                next_window(w, pages.first().last()),
                notifications,
                broadcasts,
            )
        } else {
            pages.len() == 1
        }
    }
}

/// The pages of a walk, joined, are the whole view, newest first, with each
/// row exactly once.
pub proof fn a_walk_shows_the_whole_view(
    pages: Seq<Seq<MergedRow>>,
    s: Scope,
    w: ListWindow,
    notifications: Seq<(Notification, serde_json::Value)>,
    broadcasts: Seq<(Broadcast, serde_json::Value)>,
)
    requires
        is_walk(pages, s, w, notifications, broadcasts),
        w.limit >= 1,
        keys_are_distinct(listed_rows(s, w, notifications, broadcasts)),
    ensures
        newest_first(pages.flatten()),
        pages.flatten().to_multiset() == listed_rows(
            s,
            w,
            notifications,
            broadcasts,
        ).to_multiset(),
        pages.flatten().no_duplicates(),
    decreases pages.len(),
{
    broadcast use vstd::seq_lib::group_to_multiset_ensures;
    broadcast use vstd::multiset::group_multiset_axioms;

    let rows = listed_rows(s, w, notifications, broadcasts);
    let page = pages.first();
    let rest = pages.drop_first();
    let all = pages.flatten();
    if rows.len() > w.limit {
        the_next_page_continues(s, w, notifications, broadcasts, page);
        let v = next_window(w, page.last());
        a_walk_shows_the_whole_view(rest, s, v, notifications, broadcasts);
        let tail = rest.flatten();
        let left = rows.to_multiset().sub(page.to_multiset());
        assert(all == page + tail);
        vstd::seq_lib::lemma_multiset_commutative(page, tail);
        assert(all.to_multiset() =~= rows.to_multiset());
        assert forall|i: int, j: int| 0 <= i < j < all.len() implies !(#[trigger] all[j]).newer(
            #[trigger] all[i],
        ) by {
            let n = page.len();
            if j < n {
                assert(page[i] == all[i] && page[j] == all[j]);
            } else if i >= n {
                assert(tail[i - n] == all[i] && tail[j - n] == all[j]);
            } else {
                assert(tail[j - n] == all[j]);
                assert(tail.contains(all[j]));
                vstd::seq_lib::to_multiset_contains(tail, all[j]);
                assert(left.contains(all[j]));
                assert(!all[j].newer(page[i]));
            }
        }
    } else {
        assert(rest.flatten() =~= Seq::<MergedRow>::empty());
        assert(all =~= page);
        the_last_page_holds_the_rest(rows, w.limit as int, page);
    }
    lemma_whole(all, rows);
    lemma_page_row_stands_once(all, rows, rows.len() as int);
}

/// What holds the same rows newest first is the page that has room for all.
proof fn lemma_whole(all: Seq<MergedRow>, rows: Seq<MergedRow>)
    requires
        newest_first(all),
        all.to_multiset() == rows.to_multiset(),
    ensures
        is_page(all, rows.to_multiset(), rows.len() as int),
{
    broadcast use vstd::seq_lib::group_to_multiset_ensures;
    broadcast use vstd::multiset::group_multiset_axioms;

}

/// The pages of a walk, joined, do not depend on the page size.
pub proof fn every_page_size_shows_the_same(
    pages: Seq<Seq<MergedRow>>,
    others: Seq<Seq<MergedRow>>,
    s: Scope,
    w: ListWindow,
    v: ListWindow,
    notifications: Seq<(Notification, serde_json::Value)>,
    broadcasts: Seq<(Broadcast, serde_json::Value)>,
)
    requires
        is_walk(pages, s, w, notifications, broadcasts),
        is_walk(others, s, v, notifications, broadcasts),
        v == (ListWindow { limit: v.limit, ..w }),
        w.limit >= 1,
        v.limit >= 1,
        keys_are_distinct(listed_rows(s, w, notifications, broadcasts)),
    ensures
        pages.flatten() == others.flatten(),
{
    let rows = listed_rows(s, w, notifications, broadcasts);
    the_page_size_is_no_part_of_the_view(s, w, v, notifications, broadcasts);
    a_walk_shows_the_whole_view(pages, s, w, notifications, broadcasts);
    a_walk_shows_the_whole_view(others, s, v, notifications, broadcasts);
    lemma_whole(pages.flatten(), rows);
    lemma_whole(others.flatten(), rows);
    a_page_is_determined(rows, rows.len() as int, pages.flatten(), others.flatten());
}

proof fn lemma_placed(sorted: Seq<MergedRow>, x: MergedRow) -> (r: Seq<MergedRow>)
    requires
        newest_first(sorted),
    ensures
        newest_first(r),
        r.to_multiset() == sorted.to_multiset().insert(x),
    decreases sorted.len(),
{
    broadcast use vstd::seq_lib::group_to_multiset_ensures;
    broadcast use vstd::multiset::group_multiset_axioms;

    if sorted.len() == 0 || !x.newer(sorted.last()) {
        let r = sorted.push(x);
        assert forall|i: int, j: int| 0 <= i < j < r.len() implies !(#[trigger] r[j]).newer(
            #[trigger] r[i],
        ) by {
            if j == sorted.len() && i < j - 1 {
                assert(!sorted[j - 1].newer(sorted[i]));
            }
        }
        r
    } else {
        let last = sorted.last();
        let short = sorted.drop_last();
        assert forall|i: int, j: int| 0 <= i < j < short.len() implies !(
        #[trigger] short[j]).newer(#[trigger] short[i]) by {
            assert(sorted[i] == short[i] && sorted[j] == short[j]);
        }
        let head = lemma_placed(short, x);
        let r = head.push(last);
        assert(sorted =~= short.push(last));
        assert(r.to_multiset() =~= sorted.to_multiset().insert(x));
        assert forall|i: int, j: int| 0 <= i < j < r.len() implies !(#[trigger] r[j]).newer(
            #[trigger] r[i],
        ) by {
            if j == head.len() {
                assert(head.contains(head[i]));
                vstd::seq_lib::to_multiset_contains(head, head[i]);
                if head[i] != x {
                    vstd::seq_lib::to_multiset_contains(short, head[i]);
                    let k = choose|k: int| 0 <= k < short.len() && short[k] == head[i];
                    assert(sorted[k] == head[i]);
                    assert(!sorted[sorted.len() - 1].newer(sorted[k]));
                }
            }
        }
        r
    }
}

proof fn lemma_sorted(rows: Seq<MergedRow>) -> (r: Seq<MergedRow>)
    ensures
        newest_first(r),
        r.to_multiset() == rows.to_multiset(),
    decreases rows.len(),
{
    broadcast use vstd::seq_lib::group_to_multiset_ensures;
    broadcast use vstd::multiset::group_multiset_axioms;

    if rows.len() == 0 {
        rows
    } else {
        let short = lemma_sorted(rows.drop_last());
        assert(rows =~= rows.drop_last().push(rows.last()));
        lemma_placed(short, rows.last())
    }
}

/// Every view can be walked to its end, in at most one page more than it has
/// rows.
pub proof fn every_view_can_be_walked(
    s: Scope,
    w: ListWindow,
    notifications: Seq<(Notification, serde_json::Value)>,
    broadcasts: Seq<(Broadcast, serde_json::Value)>,
) -> (pages: Seq<Seq<MergedRow>>)
    requires
        w.limit >= 1,
        keys_are_distinct(listed_rows(s, w, notifications, broadcasts)),
    ensures
        is_walk(pages, s, w, notifications, broadcasts),
        pages.len() <= listed_rows(s, w, notifications, broadcasts).len() + 1,
    decreases listed_rows(s, w, notifications, broadcasts).len(),
{
    broadcast use vstd::seq_lib::group_to_multiset_ensures;
    broadcast use vstd::multiset::group_multiset_axioms;

    let rows = listed_rows(s, w, notifications, broadcasts);
    let all = lemma_sorted(rows);
    lemma_whole(all, rows);
    if rows.len() > w.limit {
        let page = all.take(w.limit as int);
        a_shorter_page_is_the_head(all, rows, rows.len() as int, w.limit as int);
        the_next_page_continues(s, w, notifications, broadcasts, page);
        let v = next_window(w, page.last());
        assert(listed_rows(s, v, notifications, broadcasts).to_multiset().len() < rows.len());
        let rest = every_view_can_be_walked(s, v, notifications, broadcasts);
        let pages = seq![page] + rest;
        assert(pages.first() == page);
        assert(pages.drop_first() =~= rest);
        pages
    } else {
        let pages = seq![all];
        assert(is_page(pages.first(), rows.to_multiset(), w.limit as int));
        pages
    }
}

/// A client's walk: requests and what they were answered. Each request after
/// the first hands back the cursor of the answer before it, in the same view
/// and with the same page size, and the last answer has no cursor.
pub open spec fn is_client_walk(
    requests: Seq<ListParams>,
    answers: Seq<InboxPage>,
    s: Scope,
    notifications: Seq<(Notification, serde_json::Value)>,
    broadcasts: Seq<(Broadcast, serde_json::Value)>,
) -> bool
    decreases answers.len(),
{
    if answers.len() == 0 || requests.len() != answers.len() {
        false
    } else {
        let request = requests.first();
        let answer = answers.first();
        &&& request.fault() is None
        &&& answer.answers(s, request.window(), notifications, broadcasts)
        &&& match answer.next_cursor {
            None => answers.len() == 1,
            Some(cursor) => {
                &&& answers.len() > 1
                &&& hands_back(requests[1], cursor@)
                &&& requests[1].page_size() == request.page_size()
                &&& requests[1].view_named() == request.view_named()
                &&& is_client_walk(
                    requests.drop_first(),
                    answers.drop_first(),
                    s,
                    notifications,
                    broadcasts,
                )
            },
        }
    }
}

/// The request's cursor is the one given.
pub open spec fn hands_back(request: ListParams, cursor: Seq<char>) -> bool {
    request.cursor matches Some(c) && c@ == cursor
}

/// A client that follows the cursors until there is none has walked the view:
/// its answers show the pages of a walk, one for one.
pub proof fn following_the_cursors_walks_the_view(
    requests: Seq<ListParams>,
    answers: Seq<InboxPage>,
    s: Scope,
    notifications: Seq<(Notification, serde_json::Value)>,
    broadcasts: Seq<(Broadcast, serde_json::Value)>,
) -> (pages: Seq<Seq<MergedRow>>)
    requires
        is_client_walk(requests, answers, s, notifications, broadcasts),
        instants_exist(notifications, broadcasts),
    ensures
        is_walk(pages, s, requests.first().window(), notifications, broadcasts),
        pages.len() == answers.len(),
        forall|i: int| 0 <= i < pages.len() ==> (#[trigger] answers[i]).shows(pages[i]),
    decreases answers.len(),
{
    broadcast use vstd::seq_lib::group_to_multiset_ensures;

    let request = requests.first();
    let answer = answers.first();
    let w = request.window();
    let rows = listed_rows(s, w, notifications, broadcasts);
    let page = choose|page: Seq<MergedRow>|
        #[trigger] is_page(page, rows.to_multiset(), w.limit as int) && answer.shows(page) && (
        answer.next_cursor is Some ==> answer.leads_on_from(page.last()));
    if answer.next_cursor is None {
        let pages = seq![page];
        assert(pages.first() == page);
        pages
    } else {
        lemma_listed_instants_exist(s, w, notifications, broadcasts);
        lemma_page_row_counts(page, rows, w.limit as int, page.len() - 1);
        let k = choose|k: int| 0 <= k < rows.len() && rows[k] == page.last();
        assert(rows[k].occurred_at == page.last().occurred_at);
        the_cursor_asks_for_the_next_page(request, requests[1], page.last());
        assert(requests.drop_first().first() == requests[1]);
        let rest = following_the_cursors_walks_the_view(
            requests.drop_first(),
            answers.drop_first(),
            s,
            notifications,
            broadcasts,
        );
        let pages = seq![page] + rest;
        assert(pages.first() == page);
        assert(pages.drop_first() =~= rest);
        assert forall|i: int| 0 <= i < pages.len() implies (#[trigger] answers[i]).shows(
            pages[i],
        ) by {
            if i > 0 {
                assert(answers.drop_first()[i - 1] == answers[i]);
                assert(pages[i] == rest[i - 1]);
            }
        }
        pages
    }
}

/// A client that follows the cursors until there is none has been shown the
/// whole view, newest first, with each row exactly once.
pub proof fn following_the_cursors_shows_the_whole_view(
    requests: Seq<ListParams>,
    answers: Seq<InboxPage>,
    s: Scope,
    notifications: Seq<(Notification, serde_json::Value)>,
    broadcasts: Seq<(Broadcast, serde_json::Value)>,
) -> (pages: Seq<Seq<MergedRow>>)
    requires
        is_client_walk(requests, answers, s, notifications, broadcasts),
        instants_exist(notifications, broadcasts),
        keys_are_distinct(
            listed_rows(s, requests.first().window(), notifications, broadcasts),
        ),
    ensures
        pages.len() == answers.len(),
        forall|i: int| 0 <= i < pages.len() ==> (#[trigger] answers[i]).shows(pages[i]),
        newest_first(pages.flatten()),
        pages.flatten().to_multiset() == listed_rows(
            s,
            requests.first().window(),
            notifications,
            broadcasts,
        ).to_multiset(),
        pages.flatten().no_duplicates(),
{
    let pages = following_the_cursors_walks_the_view(
        requests,
        answers,
        s,
        notifications,
        broadcasts,
    );
    a_walk_shows_the_whole_view(
        pages,
        s,
        requests.first().window(),
        notifications,
        broadcasts,
    );
    pages
}

} // verus!
