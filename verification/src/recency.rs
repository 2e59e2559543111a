//! The most-recently-used order.

use vstd::prelude::*;

use crate::mru_model::lemma_filter_source;
use crate::thumbnail::{models, Thumbnail, ThumbnailModel};

verus! {

/// Most recently focused first; windows that never had the focus last.
pub open spec fn at_least_as_recent(a: Option<u128>, b: Option<u128>) -> bool {
    match (a, b) {
        (_, None) => true,
        (None, Some(_)) => false,
        (Some(a), Some(b)) => a >= b,
    }
}

/// The windows stand in most-recently-used order.
pub open spec fn in_mru_order(thumbnails: Seq<ThumbnailModel>) -> bool {
    forall|i: int, j: int|
        0 <= i <= j < thumbnails.len() ==> at_least_as_recent(
            (#[trigger] thumbnails[i]).timestamp,
            (#[trigger] thumbnails[j]).timestamp,
        )
}

/// The windows that got the focus at the given time, in order.
pub open spec fn focused_at(thumbnails: Seq<ThumbnailModel>, timestamp: Option<u128>) -> Seq<
    ThumbnailModel,
> {
    thumbnails.filter(|t: ThumbnailModel| t.timestamp == timestamp)
}

/// `sorted` holds the windows of `thumbnails` in most-recently-used order, with those that have the
/// same timestamp in the order they had.
pub open spec fn is_mru_sort(thumbnails: Seq<ThumbnailModel>, sorted: Seq<ThumbnailModel>) -> bool {
    &&& in_mru_order(sorted)
    &&& forall|timestamp: Option<u128>| #[trigger]
        focused_at(sorted, timestamp) == focused_at(thumbnails, timestamp)
    &&& sorted.to_multiset() == thumbnails.to_multiset()
}

/// Whether `a` comes no later than `b` in most-recently-used order.
fn comes_first(a: Option<u128>, b: Option<u128>) -> (r: bool)
    ensures
        r == at_least_as_recent(a, b),
{
    match (a, b) {
        (_, None) => true,
        (None, Some(_)) => false,
        (Some(a), Some(b)) => a >= b,
    }
}

/// Putting a window before the first one that is no more recent keeps the order, and puts it first
/// among those with its timestamp.
proof fn lemma_insert(
    thumbnails: Seq<ThumbnailModel>,
    sorted: Seq<ThumbnailModel>,
    t: ThumbnailModel,
    at: int,
)
    requires
        is_mru_sort(thumbnails, sorted),
        0 <= at <= sorted.len(),
        forall|i: int|
            0 <= i < at ==> !at_least_as_recent(t.timestamp, (#[trigger] sorted[i]).timestamp),
        at < sorted.len() ==> at_least_as_recent(t.timestamp, sorted[at].timestamp),
    ensures
        is_mru_sort(seq![t] + thumbnails, sorted.insert(at, t)),
{
    let front = sorted.take(at);
    let back = sorted.skip(at);
    let all = seq![t] + thumbnails;
    let inserted = sorted.insert(at, t);
    sorted.insert_ensures(at, t);
    assert(inserted =~= front + seq![t] + back);
    assert(sorted =~= front + back);

    assert forall|i: int, j: int| 0 <= i <= j < inserted.len() implies at_least_as_recent(
        (#[trigger] inserted[i]).timestamp,
        (#[trigger] inserted[j]).timestamp,
    ) by {
        let a = if i < at { i } else { i - 1 };
        let b = if j < at { j } else { j - 1 };
        if i != at {
            assert(inserted[i] == sorted[a]);
        }
        if j != at {
            assert(inserted[j] == sorted[b]);
        }
        if i == at && j > at {
            assert(at_least_as_recent(sorted[at].timestamp, sorted[b].timestamp));
        }
    }

    assert forall|timestamp: Option<u128>| #[trigger]
        focused_at(inserted, timestamp) == focused_at(all, timestamp) by {
        let then = |u: ThumbnailModel| u.timestamp == timestamp;
        broadcast use Seq::filter_distributes_over_add;

        assert(focused_at(sorted, timestamp) == focused_at(thumbnails, timestamp));
        assert(inserted.filter(then) == front.filter(then) + seq![t].filter(then) + back.filter(
            then,
        ));
        assert(all.filter(then) == seq![t].filter(then) + thumbnails.filter(then));
        assert(sorted.filter(then) == front.filter(then) + back.filter(then));
        if timestamp == t.timestamp {
            assert(front.filter(then) =~= Seq::empty()) by {
                if front.filter(then).len() > 0 {
                    lemma_filter_source(front, then, 0);
                    front.lemma_filter_pred(then, 0);
                }
            }
            assert(inserted.filter(then) =~= all.filter(then));
        } else {
            assert(seq![t].filter(then) =~= Seq::empty()) by {
                if seq![t].filter(then).len() > 0 {
                    lemma_filter_source(seq![t], then, 0);
                    seq![t].lemma_filter_pred(then, 0);
                }
            }
            assert(inserted.filter(then) =~= all.filter(then));
        }
    }

    vstd::seq_lib::to_multiset_insert(sorted, at, t);
    assert(all =~= thumbnails.insert(0, t));
    vstd::seq_lib::to_multiset_insert(thumbnails, 0, t);
}

/// Puts thumbnails in most-recently-used order.
pub fn sort_by_recency(thumbnails: Vec<Thumbnail>) -> (sorted: Vec<Thumbnail>)
    ensures
        is_mru_sort(models(thumbnails@), models(sorted@)),
{
    let ghost all = models(thumbnails@);
    let mut rest: Vec<Thumbnail> = thumbnails;
    let mut sorted: Vec<Thumbnail> = Vec::new();
    assert(all.skip(rest@.len() as int) =~= models(sorted@));
    while rest.len() > 0
        invariant
            rest@.len() <= all.len(),
            models(rest@) == all.take(rest@.len() as int),
            is_mru_sort(all.skip(rest@.len() as int), models(sorted@)),
        decreases rest.len(),
    {
        let ghost n = rest@.len() as int;
        let ghost before = models(sorted@);
        assert(models(rest@)[n - 1] == all[n - 1]);
        let thumbnail: Thumbnail = rest.pop().unwrap();
        assert(thumbnail@ == all[n - 1]);
        let mut at: usize = 0;
        while at < sorted.len() && !comes_first(thumbnail.timestamp, sorted[at].timestamp)
            invariant
                at <= sorted.len(),
                models(sorted@) == before,
                forall|i: int|
                    0 <= i < at ==> !at_least_as_recent(
                        thumbnail.timestamp,
                        (#[trigger] before[i]).timestamp,
                    ),
            decreases sorted.len() - at,
        {
            at += 1;
        }
        proof {
            lemma_insert(all.skip(n), before, thumbnail@, at as int);
            assert(all.skip(n - 1) =~= seq![thumbnail@] + all.skip(n));
        }
        let ghost t = thumbnail@;
        sorted.insert(at, thumbnail);
        assert(models(sorted@) =~= before.insert(at as int, t));
        assert(models(rest@) =~= all.take(n - 1));
    }
    assert(all.skip(0) =~= all);
    sorted
}

/// There is one most-recently-used order: two lists that hold the same windows in it, with equal
/// timestamps in the order of the layout, are the same list.
pub proof fn law_mru_sort_unique(
    thumbnails: Seq<ThumbnailModel>,
    a: Seq<ThumbnailModel>,
    b: Seq<ThumbnailModel>,
)
    requires
        is_mru_sort(thumbnails, a),
        is_mru_sort(thumbnails, b),
    ensures
        a == b,
{
    assert forall|timestamp: Option<u128>| #[trigger]
        focused_at(a, timestamp) == focused_at(b, timestamp) by {
        assert(focused_at(a, timestamp) == focused_at(thumbnails, timestamp));
    }
    lemma_same_order(a, b);
}

/// Lists in order that agree at each timestamp agree.
proof fn lemma_same_order(a: Seq<ThumbnailModel>, b: Seq<ThumbnailModel>)
    requires
        in_mru_order(a),
        in_mru_order(b),
        forall|timestamp: Option<u128>| #[trigger]
            focused_at(a, timestamp) == focused_at(b, timestamp),
    ensures
        a == b,
    decreases a.len(),
{
    if a.len() == 0 {
        if b.len() > 0 {
            lemma_last_focused(b);
            reveal(Seq::filter);
            assert(focused_at(a, b.last().timestamp) =~= Seq::empty());
        }
        assert(a =~= b);
    } else {
        lemma_last_focused(a);
        if b.len() == 0 {
            reveal(Seq::filter);
            assert(focused_at(b, a.last().timestamp) =~= Seq::empty());
        } else {
            lemma_last_focused(b);
            let s = a.last().timestamp;
            let t = b.last().timestamp;
            assert(focused_at(a, s) == focused_at(b, s));
            assert(focused_at(a, t) == focused_at(b, t));
            let at_s = |u: ThumbnailModel| u.timestamp == s;
            let at_t = |u: ThumbnailModel| u.timestamp == t;
            // The last window of each list has the least timestamp there is.
            lemma_filter_source(b, at_s, 0);
            b.lemma_filter_pred(at_s, 0);
            lemma_filter_source(a, at_t, 0);
            a.lemma_filter_pred(at_t, 0);
            let i = b.index_of(focused_at(b, s)[0]);
            let j = a.index_of(focused_at(a, t)[0]);
            assert(at_least_as_recent(b[i].timestamp, b[b.len() - 1].timestamp));
            assert(at_least_as_recent(a[j].timestamp, a[a.len() - 1].timestamp));
            assert(s == t);
            assert(a.last() == b.last());
            assert forall|timestamp: Option<u128>| #[trigger]
                focused_at(a.drop_last(), timestamp) == focused_at(b.drop_last(), timestamp) by {
                let then = |u: ThumbnailModel| u.timestamp == timestamp;
                reveal(Seq::filter);
                assert(focused_at(a, timestamp) == focused_at(b, timestamp));
                assert(a.filter(then).drop_last() =~= a.drop_last().filter(then) || timestamp != s);
                assert(b.filter(then).drop_last() =~= b.drop_last().filter(then) || timestamp != s);
            }
            lemma_same_order(a.drop_last(), b.drop_last());
            assert(a =~= a.drop_last().push(a.last()));
            assert(b =~= b.drop_last().push(b.last()));
        }
    }
}

/// The last window of a list is the last one with its timestamp.
proof fn lemma_last_focused(thumbnails: Seq<ThumbnailModel>)
    requires
        thumbnails.len() > 0,
    ensures
        focused_at(thumbnails, thumbnails.last().timestamp).len() > 0,
        focused_at(thumbnails, thumbnails.last().timestamp).last() == thumbnails.last(),
{
    reveal(Seq::filter);
}

/// In most-recently-used order no window comes before one that was focused later, and none that
/// never had the focus before one that had it.
pub proof fn law_sorted_by_focus(
    thumbnails: Seq<ThumbnailModel>,
    sorted: Seq<ThumbnailModel>,
    i: int,
    j: int,
)
    requires
        is_mru_sort(thumbnails, sorted),
        0 <= i < j < sorted.len(),
    ensures
        sorted[i].timestamp is None ==> sorted[j].timestamp is None,
        sorted[i].timestamp matches Some(earlier) ==> (sorted[j].timestamp matches Some(later)
            ==> earlier >= later),
{
    assert(at_least_as_recent(sorted[i].timestamp, sorted[j].timestamp));
}

/// Sorting loses no window and adds none.
pub proof fn law_sort_keeps_windows(thumbnails: Seq<ThumbnailModel>, sorted: Seq<ThumbnailModel>)
    requires
        is_mru_sort(thumbnails, sorted),
    ensures
        sorted.len() == thumbnails.len(),
        forall|t: ThumbnailModel| sorted.contains(t) <==> #[trigger] thumbnails.contains(t),
{
    broadcast use vstd::seq_lib::group_to_multiset_ensures;

    assert(sorted.to_multiset().len() == thumbnails.to_multiset().len());
    assert forall|t: ThumbnailModel| sorted.contains(t) <==> #[trigger] thumbnails.contains(t) by {
        assert(sorted.contains(t) <==> sorted.to_multiset().count(t) > 0);
        assert(thumbnails.contains(t) <==> thumbnails.to_multiset().count(t) > 0);
    }
}

/// Sorting keeps windows with the same timestamp in the order of the layout.
pub proof fn law_sort_stable(
    thumbnails: Seq<ThumbnailModel>,
    sorted: Seq<ThumbnailModel>,
    i: int,
    j: int,
    p: int,
    q: int,
)
    requires
        is_mru_sort(thumbnails, sorted),
        thumbnails.no_duplicates(),
        0 <= i < j < thumbnails.len(),
        thumbnails[i].timestamp == thumbnails[j].timestamp,
        0 <= p < sorted.len(),
        0 <= q < sorted.len(),
        sorted[p] == thumbnails[i],
        sorted[q] == thumbnails[j],
    ensures
        p < q,
{
    let timestamp = thumbnails[i].timestamp;
    let then = |t: ThumbnailModel| t.timestamp == timestamp;
    let focused = focused_at(thumbnails, timestamp);
    assert(focused_at(sorted, timestamp) == focused);
    lemma_filter_order(thumbnails, then, i, j);
    lemma_filter_no_duplicates(thumbnails, then);
    if q < p {
        lemma_filter_order(sorted, then, q, p);
        let (a, b) = choose|a: int, b: int|
            0 <= a < b < focused.len() && focused[a] == thumbnails[i] && focused[b]
                == thumbnails[j];
        let (c, d) = choose|c: int, d: int|
            0 <= c < d < focused.len() && focused[c] == sorted[q] && focused[d] == sorted[p];
        assert(a == d && b == c);
    }
}

proof fn lemma_filter_order<A>(s: Seq<A>, kept: spec_fn(A) -> bool, i: int, j: int)
    requires
        0 <= i < j < s.len(),
        kept(s[i]),
        kept(s[j]),
    ensures
        exists|a: int, b: int|
            0 <= a < b < s.filter(kept).len() && s.filter(kept)[a] == s[i] && s.filter(kept)[b]
                == s[j],
    decreases s.len(),
{
    reveal(Seq::filter);
    let front = s.drop_last();
    if j < s.len() - 1 {
        lemma_filter_order(front, kept, i, j);
        let (a, b) = choose|a: int, b: int|
            0 <= a < b < front.filter(kept).len() && front.filter(kept)[a] == front[i]
                && front.filter(kept)[b] == front[j];
        assert(s.filter(kept)[a] == s[i] && s.filter(kept)[b] == s[j]);
    } else {
        lemma_filter_keeps(front, kept, i);
        let a = choose|a: int|
            0 <= a < front.filter(kept).len() && front.filter(kept)[a] == front[i];
        let b = front.filter(kept).len() as int;
        assert(s.filter(kept)[a] == s[i] && s.filter(kept)[b] == s[j]);
    }
}

proof fn lemma_filter_keeps<A>(s: Seq<A>, kept: spec_fn(A) -> bool, i: int)
    requires
        0 <= i < s.len(),
        kept(s[i]),
    ensures
        exists|a: int| 0 <= a < s.filter(kept).len() && s.filter(kept)[a] == s[i],
    decreases s.len(),
{
    reveal(Seq::filter);
    let front = s.drop_last();
    if i < s.len() - 1 {
        lemma_filter_keeps(front, kept, i);
        let a = choose|a: int|
            0 <= a < front.filter(kept).len() && front.filter(kept)[a] == front[i];
        assert(s.filter(kept)[a] == s[i]);
    } else {
        assert(s.filter(kept)[front.filter(kept).len() as int] == s[i]);
    }
}

proof fn lemma_filter_no_duplicates<A>(s: Seq<A>, kept: spec_fn(A) -> bool)
    requires
        s.no_duplicates(),
    ensures
        s.filter(kept).no_duplicates(),
    decreases s.len(),
{
    reveal(Seq::filter);
    if s.len() > 0 {
        let front = s.drop_last();
        lemma_filter_no_duplicates(front, kept);
        assert forall|k: int| 0 <= k < front.filter(kept).len() implies #[trigger] front.filter(
            kept,
        )[k] != s.last() by {
            lemma_filter_source(front, kept, k);
            let i = front.index_of(front.filter(kept)[k]);
            assert(s[i] == front.filter(kept)[k]);
        }
    }
}

} // verus!
