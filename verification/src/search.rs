//! Listing with and without a search term, and the order of search results.
//!
//! Matching and scoring belong to the text-search engine. What it returns is
//! a rank for each video: an integer that is zero where the video has no
//! relevance to the term and grows with relevance. This module decides when
//! a listing is a search at all, drops what has no relevance and puts the
//! matches in order: highest rank first, and the lower id first among equal
//! ranks.

use crate::models::{VideoWithAuthor, VideoWithAuthorView};
use vstd::prelude::*;

verus! {

/// What a listing asks of the storage.
#[derive(Clone, Debug, PartialEq, Eq)]
pub enum ListQuery {
    /// Every video, unfiltered.
    All,
    /// The videos that match the term, by relevance.
    Search(String),
}

/// What a [`ListQuery`] is in contracts.
pub ghost enum ListQueryView {
    All,
    Search(Seq<char>),
}

impl View for ListQuery {
    type V = ListQueryView;

    open spec fn view(&self) -> ListQueryView {
        match self {
            ListQuery::All => ListQueryView::All,
            ListQuery::Search(term) => ListQueryView::Search(term@),
        }
    }
}

/// The query for a search parameter: a search where the term is there and not
/// empty, everything where it is absent or empty.
pub open spec fn query_of(search: Option<&str>) -> ListQueryView {
    match search {
        Some(term) => if term@.len() > 0 {
            ListQueryView::Search(term@)
        } else {
            ListQueryView::All
        },
        None => ListQueryView::All,
    }
}

/// Decides what a listing asks for.
pub fn list_query(search: Option<&str>) -> (query: ListQuery)
    ensures
        query@ == query_of(search),
{
    match search {
        Some(term) => {
            if term.unicode_len() > 0 {
                ListQuery::Search(term.to_owned())
            } else {
                ListQuery::All
            }
        },
        None => ListQuery::All,
    }
}

/// An absent search term and an empty one ask for the same listing: all
/// videos, with no filter.
pub proof fn lemma_empty_search_lists_all(empty: &str)
    requires
        empty@.len() == 0,
    ensures
        query_of(None) == ListQueryView::All,
        query_of(Some(empty)) == query_of(None),
{
}

/// A joined video with the rank that the search engine gave it.
#[derive(Clone, Debug, PartialEq, Eq)]
pub struct RankedVideo {
    pub row: VideoWithAuthor,
    pub rank: u32,
}

/// What a [`RankedVideo`] is in contracts.
pub ghost struct RankedView {
    pub row: VideoWithAuthorView,
    pub rank: int,
}

impl View for RankedVideo {
    type V = RankedView;

    open spec fn view(&self) -> RankedView {
        RankedView { row: self.row@, rank: self.rank as int }
    }
}

/// The views of a list of ranked videos, in order.
pub open spec fn ranked_views(rows: Seq<RankedVideo>) -> Seq<RankedView> {
    Seq::new(rows.len(), |i: int| rows[i]@)
}

/// The rows of a ranked list without their ranks.
pub open spec fn without_ranks(rows: Seq<RankedView>) -> Seq<VideoWithAuthorView> {
    Seq::new(rows.len(), |i: int| rows[i].row)
}

/// Whether a video has any relevance to the term.
pub open spec fn is_match(row: RankedView) -> bool {
    row.rank > 0
}

/// The order of results: `a` comes before `b` where its rank is higher, or
/// where the ranks are equal and its video has the lower id.
pub open spec fn precedes(a: RankedView, b: RankedView) -> bool {
    a.rank > b.rank || (a.rank == b.rank && a.row.video.id < b.row.video.id)
}

/// No row stands after one that it precedes.
pub open spec fn in_order(rows: Seq<RankedView>) -> bool {
    forall|i: int, j: int| 0 <= i < j < rows.len() ==> !precedes(#[trigger] rows[j], #[trigger] rows[i])
}

/// Where a row goes in an ordered list: before the first row that it
/// precedes, or at the end.
pub open spec fn insertion_point(ordered: Seq<RankedView>, row: RankedView) -> int
    decreases ordered.len(),
{
    if ordered.len() == 0 || precedes(row, ordered.first()) {
        0
    } else {
        1 + insertion_point(ordered.drop_first(), row)
    }
}

/// An ordered list with one more row in its place.
pub open spec fn place(ordered: Seq<RankedView>, row: RankedView) -> Seq<RankedView> {
    ordered.insert(insertion_point(ordered, row), row)
}

/// The matches among the rows, in the order of results.
pub open spec fn relevance_order(rows: Seq<RankedView>) -> Seq<RankedView>
    decreases rows.len(),
{
    if rows.len() == 0 {
        Seq::empty()
    } else if is_match(rows.last()) {
        place(relevance_order(rows.drop_last()), rows.last())
    } else {
        relevance_order(rows.drop_last())
    }
}

/// The matches among the rows, in the order in which they were given.
pub open spec fn matches_of(rows: Seq<RankedView>) -> Seq<RankedView>
    decreases rows.len(),
{
    if rows.len() == 0 {
        Seq::empty()
    } else if is_match(rows.last()) {
        matches_of(rows.drop_last()).push(rows.last())
    } else {
        matches_of(rows.drop_last())
    }
}

proof fn lemma_insertion_point(ordered: Seq<RankedView>, row: RankedView)
    ensures
        0 <= insertion_point(ordered, row) <= ordered.len(),
        forall|k: int| 0 <= k < insertion_point(ordered, row) ==> !precedes(row, #[trigger] ordered[k]),
        insertion_point(ordered, row) < ordered.len() ==> precedes(
            row,
            ordered[insertion_point(ordered, row)],
        ),
    decreases ordered.len(),
{
    if ordered.len() == 0 || precedes(row, ordered.first()) {
    } else {
        let rest = ordered.drop_first();
        lemma_insertion_point(rest, row);
        assert forall|k: int| 0 <= k < insertion_point(ordered, row) implies !precedes(
            row,
            #[trigger] ordered[k],
        ) by {
            if k > 0 {
                assert(ordered[k] == rest[k - 1]);
            }
        }
    }
}

proof fn lemma_insertion_point_skip(ordered: Seq<RankedView>, row: RankedView, j: int)
    requires
        0 <= j <= ordered.len(),
        forall|k: int| 0 <= k < j ==> !precedes(row, #[trigger] ordered[k]),
    ensures
        insertion_point(ordered, row) == j + insertion_point(ordered.skip(j), row),
    decreases j,
{
    if j > 0 {
        let rest = ordered.drop_first();
        assert forall|k: int| 0 <= k < j - 1 implies !precedes(row, #[trigger] rest[k]) by {}
        lemma_insertion_point_skip(rest, row, j - 1);
        assert(rest.skip(j - 1) == ordered.skip(j));
    } else {
        assert(ordered.skip(0) == ordered);
    }
}

proof fn lemma_place_keeps_order(ordered: Seq<RankedView>, row: RankedView)
    requires
        in_order(ordered),
    ensures
        in_order(place(ordered, row)),
{
    lemma_insertion_point(ordered, row);
    let after = place(ordered, row);
    assert forall|i: int, j: int| 0 <= i < j < after.len() implies !precedes(
        #[trigger] after[j],
        #[trigger] after[i],
    ) by {}
}

/// The results are in order: a row with a higher rank stands before every row
/// with a lower one, and among equal ranks the lower id stands first.
pub proof fn lemma_results_in_order(rows: Seq<RankedView>)
    ensures
        in_order(relevance_order(rows)),
        forall|i: int, j: int|
            0 <= i < relevance_order(rows).len() && 0 <= j < relevance_order(rows).len() && (
            #[trigger] relevance_order(rows)[i]).rank > (#[trigger] relevance_order(rows)[j]).rank ==> i
                < j,
    decreases rows.len(),
{
    if rows.len() > 0 {
        lemma_results_in_order(rows.drop_last());
        if is_match(rows.last()) {
            lemma_place_keeps_order(relevance_order(rows.drop_last()), rows.last());
        }
    }
    let out = relevance_order(rows);
    assert forall|i: int, j: int|
        0 <= i < out.len() && 0 <= j < out.len() && (#[trigger] out[i]).rank > (#[trigger] out[j]).rank implies i
        < j by {}
}

/// The results are the matches and nothing else: every row with relevance is
/// there as often as it was given, and no row without relevance is there.
pub proof fn lemma_results_are_the_matches(rows: Seq<RankedView>)
    ensures
        relevance_order(rows).to_multiset() == matches_of(rows).to_multiset(),
        relevance_order(rows).len() == matches_of(rows).len(),
        forall|i: int| 0 <= i < relevance_order(rows).len() ==> is_match(#[trigger] relevance_order(rows)[i]),
        forall|i: int|
            0 <= i < relevance_order(rows).len() ==> rows.contains(#[trigger] relevance_order(rows)[i]),
        forall|i: int|
            0 <= i < rows.len() && is_match(#[trigger] rows[i]) ==> relevance_order(rows).contains(rows[i]),
    decreases rows.len(),
{
    if rows.len() > 0 {
        let front = rows.drop_last();
        let last = rows.last();
        lemma_results_are_the_matches(front);
        let before = relevance_order(front);
        let out = relevance_order(rows);
        if is_match(last) {
            lemma_insertion_point(before, last);
            let at = insertion_point(before, last);
            vstd::seq_lib::to_multiset_insert(before, at, last);
            vstd::seq_lib::to_multiset_build(matches_of(front), last);
            assert forall|i: int| 0 <= i < out.len() implies is_match(#[trigger] out[i]) && rows.contains(
                out[i],
            ) by {}
            assert forall|i: int| 0 <= i < rows.len() && is_match(#[trigger] rows[i]) implies out.contains(
                rows[i],
            ) by {
                if i == rows.len() - 1 {
                    assert(out[at] == rows[i]);
                } else {
                    let k = choose|k: int| 0 <= k < before.len() && before[k] == front[i];
                    if k < at {
                        assert(out[k] == rows[i]);
                    } else {
                        assert(out[k + 1] == rows[i]);
                    }
                }
            }
        } else {
            assert forall|i: int| 0 <= i < out.len() implies rows.contains(#[trigger] out[i]) by {}
            assert forall|i: int| 0 <= i < rows.len() && is_match(#[trigger] rows[i]) implies out.contains(
                rows[i],
            ) by {
                assert(front[i] == rows[i]);
            }
        }
    }
}

/// No two rows are of the same video.
pub open spec fn distinct_videos(rows: Seq<RankedView>) -> bool {
    forall|i: int, j: int|
        0 <= i < j < rows.len() ==> (#[trigger] rows[i]).row.video.id != (#[trigger] rows[j]).row.video.id
}

/// The two lists hold the same rows, in whatever order.
pub open spec fn same_rows(a: Seq<RankedView>, b: Seq<RankedView>) -> bool {
    forall|row: RankedView| #[trigger] a.contains(row) <==> b.contains(row)
}

proof fn lemma_order_keeps_distinct(rows: Seq<RankedView>)
    requires
        distinct_videos(rows),
    ensures
        distinct_videos(relevance_order(rows)),
    decreases rows.len(),
{
    if rows.len() > 0 {
        let front = rows.drop_last();
        let last = rows.last();
        assert(distinct_videos(front)) by {
            assert forall|i: int, j: int| 0 <= i < j < front.len() implies (#[trigger] front[i]).row.video.id != (
            #[trigger] front[j]).row.video.id by {
                assert(front[i] == rows[i] && front[j] == rows[j]);
            }
        }
        lemma_order_keeps_distinct(front);
        lemma_results_are_the_matches(front);
        if is_match(last) {
            let before = relevance_order(front);
            lemma_insertion_point(before, last);
            let at = insertion_point(before, last);
            let out = before.insert(at, last);
            assert forall|k: int| 0 <= k < before.len() implies (#[trigger] before[k]).row.video.id
                != last.row.video.id by {
                assert(front.contains(before[k]));
                let m = choose|m: int| 0 <= m < front.len() && front[m] == before[k];
                assert(rows[m] == before[k] && rows[rows.len() - 1] == last);
            }
            assert forall|i: int, j: int| 0 <= i < j < out.len() implies (#[trigger] out[i]).row.video.id != (
            #[trigger] out[j]).row.video.id by {
                let i0 = if i < at { i } else { i - 1 };
                let j0 = if j < at { j } else { j - 1 };
                if i != at {
                    assert(out[i] == before[i0]);
                }
                if j != at {
                    assert(out[j] == before[j0]);
                }
            }
        }
    }
}

proof fn lemma_same_rows_same_list(a: Seq<RankedView>, b: Seq<RankedView>)
    requires
        in_order(a),
        in_order(b),
        distinct_videos(a),
        distinct_videos(b),
        same_rows(a, b),
    ensures
        a == b,
    decreases a.len(),
{
    if a.len() == 0 {
        if b.len() > 0 {
            assert(b.contains(b[0]));
            assert(a.contains(b[0]));
        }
        assert(a =~= b);
    } else {
        assert(a.contains(a[0]));
        assert(b.contains(a[0]));
        let j = choose|j: int| 0 <= j < b.len() && b[j] == a[0];
        assert(b.contains(b[0]));
        assert(a.contains(b[0]));
        let i = choose|i: int| 0 <= i < a.len() && a[i] == b[0];
        assert(a[0] == b[0]) by {
            if i > 0 && j > 0 {
                assert(!precedes(a[i], a[0]));
                assert(!precedes(b[j], b[0]));
                assert(a[0].row.video.id != a[i].row.video.id);
            }
        }
        let at = a.drop_first();
        let bt = b.drop_first();
        assert(in_order(at)) by {
            assert forall|p: int, q: int| 0 <= p < q < at.len() implies !precedes(
                #[trigger] at[q],
                #[trigger] at[p],
            ) by {
                assert(at[p] == a[p + 1] && at[q] == a[q + 1]);
            }
        }
        assert(in_order(bt)) by {
            assert forall|p: int, q: int| 0 <= p < q < bt.len() implies !precedes(
                #[trigger] bt[q],
                #[trigger] bt[p],
            ) by {
                assert(bt[p] == b[p + 1] && bt[q] == b[q + 1]);
            }
        }
        assert(distinct_videos(at)) by {
            assert forall|p: int, q: int| 0 <= p < q < at.len() implies (#[trigger] at[p]).row.video.id != (
            #[trigger] at[q]).row.video.id by {
                assert(at[p] == a[p + 1] && at[q] == a[q + 1]);
            }
        }
        assert(distinct_videos(bt)) by {
            assert forall|p: int, q: int| 0 <= p < q < bt.len() implies (#[trigger] bt[p]).row.video.id != (
            #[trigger] bt[q]).row.video.id by {
                assert(bt[p] == b[p + 1] && bt[q] == b[q + 1]);
            }
        }
        assert(same_rows(at, bt)) by {
            assert forall|row: RankedView| #[trigger] at.contains(row) <==> bt.contains(row) by {
                if at.contains(row) {
                    let p = choose|p: int| 0 <= p < at.len() && at[p] == row;
                    assert(a[p + 1] == row);
                    assert(a.contains(row));
                    assert(b.contains(row));
                    let q = choose|q: int| 0 <= q < b.len() && b[q] == row;
                    assert(a[0].row.video.id != a[p + 1].row.video.id);
                    assert(bt[q - 1] == row);
                }
                if bt.contains(row) {
                    let q = choose|q: int| 0 <= q < bt.len() && bt[q] == row;
                    assert(b[q + 1] == row);
                    assert(b.contains(row));
                    assert(a.contains(row));
                    let p = choose|p: int| 0 <= p < a.len() && a[p] == row;
                    assert(b[0].row.video.id != b[q + 1].row.video.id);
                    assert(at[p - 1] == row);
                }
            }
        }
        lemma_same_rows_same_list(at, bt);
        assert(a =~= seq![a[0]] + at);
        assert(b =~= seq![b[0]] + bt);
    }
}

/// The order of results does not depend on the order in which the rows were
/// given: two lists of the same rows, each with one row for a video, give the
/// same results.
pub proof fn lemma_order_ignores_input_order(a: Seq<RankedView>, b: Seq<RankedView>)
    requires
        distinct_videos(a),
        distinct_videos(b),
        same_rows(a, b),
    ensures
        relevance_order(a) == relevance_order(b),
{
    lemma_results_in_order(a);
    lemma_results_in_order(b);
    lemma_order_keeps_distinct(a);
    lemma_order_keeps_distinct(b);
    lemma_results_are_the_matches(a);
    lemma_results_are_the_matches(b);
    let x = relevance_order(a);
    let y = relevance_order(b);
    assert forall|row: RankedView| #[trigger] x.contains(row) <==> y.contains(row) by {
        if x.contains(row) {
            let i = choose|i: int| 0 <= i < x.len() && x[i] == row;
            assert(a.contains(x[i]) && is_match(x[i]));
            assert(b.contains(row));
            let k = choose|k: int| 0 <= k < b.len() && b[k] == row;
            assert(y.contains(b[k]));
        }
        if y.contains(row) {
            let i = choose|i: int| 0 <= i < y.len() && y[i] == row;
            assert(b.contains(y[i]) && is_match(y[i]));
            assert(a.contains(row));
            let k = choose|k: int| 0 <= k < a.len() && a[k] == row;
            assert(x.contains(a[k]));
        }
    }
    lemma_same_rows_same_list(x, y);
}

/// Puts ranked videos in the order of results, dropping those without
/// relevance.
pub fn order_by_relevance(rows: Vec<RankedVideo>) -> (ordered: Vec<RankedVideo>)
    ensures
        ranked_views(ordered@) == relevance_order(ranked_views(rows@)),
{
    let ghost given = ranked_views(rows@);
    let mut rest = rows;
    let mut ordered: Vec<RankedVideo> = Vec::new();
    let mut done: usize = 0;
    while rest.len() > 0
        invariant
            done + rest.len() == given.len() <= usize::MAX,
            ranked_views(rest@) == given.skip(done as int),
            ranked_views(ordered@) == relevance_order(given.take(done as int)),
        decreases rest.len(),
    {
        let ghost pending = rest@;
        let row = rest.remove(0);
        proof {
            assert(row@ == given[done as int]) by {
                assert(ranked_views(pending)[0] == given.skip(done as int)[0]);
            }
            assert forall|i: int| 0 <= i < rest@.len() implies ranked_views(rest@)[i] == given.skip(
                done as int + 1,
            )[i] by {
                assert(ranked_views(pending)[i + 1] == given.skip(done as int)[i + 1]);
            }
            assert(given.take(done as int + 1).drop_last() == given.take(done as int));
        }
        if row.rank > 0 {
            let at = insertion_index(&ordered, &row);
            let ghost before = ranked_views(ordered@);
            ordered.insert(at, row);
            proof {
                lemma_insertion_point(before, given[done as int]);
            }
        }
        done += 1;
    }
    proof {
        assert(given.take(done as int) == given);
    }
    ordered
}

fn insertion_index(ordered: &Vec<RankedVideo>, row: &RankedVideo) -> (at: usize)
    ensures
        at == insertion_point(ranked_views(ordered@), row@),
        at <= ordered.len(),
{
    let ghost views = ranked_views(ordered@);
    let mut at: usize = 0;
    while at < ordered.len()
        invariant
            at <= ordered.len(),
            views == ranked_views(ordered@),
            forall|k: int| 0 <= k < at ==> !precedes(row@, #[trigger] views[k]),
        decreases ordered.len() - at,
    {
        let other = &ordered[at];
        if row.rank > other.rank || (row.rank == other.rank && row.row.video.id < other.row.video.id) {
            proof {
                lemma_insertion_point_skip(views, row@, at as int);
            }
            return at;
        }
        at += 1;
    }
    proof {
        lemma_insertion_point_skip(views, row@, at as int);
    }
    at
}

/// Takes the ranks off a list of ranked videos.
pub fn strip_ranks(rows: Vec<RankedVideo>) -> (videos: Vec<VideoWithAuthor>)
    ensures
        crate::models::joined_views(videos@) == without_ranks(ranked_views(rows@)),
{
    let ghost given = ranked_views(rows@);
    let mut rest = rows;
    let mut videos: Vec<VideoWithAuthor> = Vec::new();
    let mut done: usize = 0;
    while rest.len() > 0
        invariant
            done + rest.len() == given.len() <= usize::MAX,
            ranked_views(rest@) == given.skip(done as int),
            videos@.len() == done,
            crate::models::joined_views(videos@) == without_ranks(given.take(done as int)),
        decreases rest.len(),
    {
        let ghost pending = rest@;
        let row = rest.remove(0);
        proof {
            assert(row@ == given[done as int]) by {
                assert(ranked_views(pending)[0] == given.skip(done as int)[0]);
            }
            assert forall|i: int| 0 <= i < rest@.len() implies ranked_views(rest@)[i] == given.skip(
                done as int + 1,
            )[i] by {
                assert(ranked_views(pending)[i + 1] == given.skip(done as int)[i + 1]);
            }
        }
        let ghost listed = videos@;
        videos.push(row.row);
        proof {
            let expected = without_ranks(given.take(done as int + 1));
            assert forall|i: int| 0 <= i < videos@.len() implies crate::models::joined_views(videos@)[i]
                == expected[i] by {
                if i < done {
                    assert(crate::models::joined_views(listed)[i] == without_ranks(given.take(done as int))[i]);
                }
            }
        }
        done += 1;
    }
    videos
}

} // verus!
