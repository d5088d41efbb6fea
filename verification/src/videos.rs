//! The video table: records are stored once, under ids that rise with the
//! order of insertion, and never change afterwards.

use crate::errors::{ApiError, ErrorKind, NotFoundExt, is_not_found};
use crate::models::{
    joined_views, stored_video, video_view_of, video_views, NewVideo, UserView, Video, VideoView,
    VideoWithAuthor, VideoWithAuthorView,
};
use crate::search::{
    list_query, order_by_relevance, query_of, ranked_views, relevance_order, strip_ranks, without_ranks,
    ListQuery, ListQueryView, RankedVideo, RankedView,
};
use crate::users::{has_id, user_with_id, UserStore};
use vstd::prelude::*;

verus! {

/// What the search engine says of one video: its rank for the term.
#[derive(Clone, Copy, Debug, PartialEq, Eq, Structural)]
pub struct SearchHit {
    pub video_id: i32,
    pub rank: u32,
}

/// Some row has this id.
pub open spec fn has_video(rows: Seq<VideoView>, id: int) -> bool {
    exists|i: int| 0 <= i < rows.len() && (#[trigger] rows[i]).id == id
}

/// The video with this id, if there is one.
pub open spec fn video_with_id(rows: Seq<VideoView>, id: int) -> Option<VideoView> {
    if has_video(rows, id) {
        Some(rows[choose|i: int| 0 <= i < rows.len() && (#[trigger] rows[i]).id == id])
    } else {
        None
    }
}

/// What holds of the rows of a video table whose next free id is `next_id`:
/// ids are positive, rise with the rows and stay below `next_id`, and no
/// duration is negative.
pub open spec fn valid_videos(rows: Seq<VideoView>, next_id: int) -> bool {
    &&& 1 <= next_id <= i32::MAX
    &&& forall|i: int| 0 <= i < rows.len() ==> 1 <= (#[trigger] rows[i]).id < next_id
    &&& forall|i: int, j: int|
        0 <= i < j < rows.len() ==> (#[trigger] rows[i]).id < (#[trigger] rows[j]).id
    &&& forall|i: int| 0 <= i < rows.len() ==> (#[trigger] rows[i]).duration_seconds >= 0
}

/// Every video's author is a user.
pub open spec fn authors_exist(videos: Seq<VideoView>, users: Seq<UserView>) -> bool {
    forall|i: int| 0 <= i < videos.len() ==> has_id(users, (#[trigger] videos[i]).author_id)
}

/// A video joined with its author, where the author exists.
pub open spec fn joined(video: VideoView, users: Seq<UserView>) -> Option<VideoWithAuthorView> {
    match user_with_id(users, video.author_id) {
        Some(author) => Some(VideoWithAuthorView { video, author }),
        None => None,
    }
}

/// The videos joined with their authors, in the order of the table.
pub open spec fn join_all(videos: Seq<VideoView>, users: Seq<UserView>) -> Seq<VideoWithAuthorView>
    decreases videos.len(),
{
    if videos.len() == 0 {
        Seq::empty()
    } else {
        match joined(videos.last(), users) {
            Some(row) => join_all(videos.drop_last(), users).push(row),
            None => join_all(videos.drop_last(), users),
        }
    }
}

/// The videos of one author, in the order of the table.
pub open spec fn videos_of(videos: Seq<VideoView>, author_id: int) -> Seq<VideoView>
    decreases videos.len(),
{
    if videos.len() == 0 {
        Seq::empty()
    } else if videos.last().author_id == author_id {
        videos_of(videos.drop_last(), author_id).push(videos.last())
    } else {
        videos_of(videos.drop_last(), author_id)
    }
}

/// What a hit stands for: its video joined with the author, under the hit's
/// rank, where both exist.
pub open spec fn ranked_row(videos: Seq<VideoView>, users: Seq<UserView>, hit: SearchHit) -> Option<
    RankedView,
> {
    match video_with_id(videos, hit.video_id as int) {
        Some(video) => match joined(video, users) {
            Some(row) => Some(RankedView { row, rank: hit.rank as int }),
            None => None,
        },
        None => None,
    }
}

/// The rows that a list of hits stands for, in the order of the hits.
pub open spec fn join_hits(videos: Seq<VideoView>, users: Seq<UserView>, hits: Seq<SearchHit>) -> Seq<
    RankedView,
>
    decreases hits.len(),
{
    if hits.len() == 0 {
        Seq::empty()
    } else {
        match ranked_row(videos, users, hits.last()) {
            Some(row) => join_hits(videos, users, hits.drop_last()).push(row),
            None => join_hits(videos, users, hits.drop_last()),
        }
    }
}

/// What a listing returns: without a search, every video joined with its
/// author; with one, the hits that have relevance, in the order of results.
pub open spec fn listing(
    videos: Seq<VideoView>,
    users: Seq<UserView>,
    query: ListQueryView,
    hits: Seq<SearchHit>,
) -> Seq<VideoWithAuthorView> {
    match query {
        ListQueryView::All => join_all(videos, users),
        ListQueryView::Search(_) => without_ranks(relevance_order(join_hits(videos, users, hits))),
    }
}

/// Why an insert is refused: a negative duration, an author that is no user,
/// or no id left. `None` where it is not refused.
pub open spec fn insert_refusal(next_id: int, users: Seq<UserView>, duration_seconds: int, author_id: int) -> Option<
    ErrorKind,
> {
    if duration_seconds < 0 {
        Some(ErrorKind::InvalidMedia)
    } else if !has_id(users, author_id) {
        Some(ErrorKind::InternalError)
    } else if next_id >= i32::MAX {
        Some(ErrorKind::InternalError)
    } else {
        None
    }
}

/// In a valid table the row found under an id is the row that has it.
pub proof fn lemma_video_with_id(rows: Seq<VideoView>, next_id: int, i: int)
    requires
        valid_videos(rows, next_id),
        0 <= i < rows.len(),
    ensures
        video_with_id(rows, rows[i].id) == Some(rows[i]),
{
}

/// Where every author exists, the unfiltered listing holds every video of the
/// table, each once and in the table's order.
pub proof fn lemma_listing_is_complete(videos: Seq<VideoView>, users: Seq<UserView>)
    requires
        authors_exist(videos, users),
    ensures
        join_all(videos, users).len() == videos.len(),
        forall|i: int| 0 <= i < videos.len() ==> (#[trigger] join_all(videos, users)[i]).video == videos[i],
    decreases videos.len(),
{
    if videos.len() > 0 {
        let front = videos.drop_last();
        assert forall|i: int| 0 <= i < front.len() implies has_id(users, (#[trigger] front[i]).author_id) by {}
        lemma_listing_is_complete(front, users);
        assert forall|i: int| 0 <= i < videos.len() implies (#[trigger] join_all(videos, users)[i]).video
            == videos[i] by {}
    }
}

/// Authors stay: users are never removed, so a video whose author exists
/// keeps its author when a user is added; and a video that was stored for an
/// existing author can be added without leaving any video without one.
pub proof fn lemma_authors_stay(videos: Seq<VideoView>, users: Seq<UserView>, user: UserView, video: VideoView)
    requires
        authors_exist(videos, users),
    ensures
        authors_exist(videos, users.push(user)),
        has_id(users, video.author_id) ==> authors_exist(videos.push(video), users),
{
    assert forall|i: int| 0 <= i < videos.len() implies has_id(
        users.push(user),
        (#[trigger] videos[i]).author_id,
    ) by {
        let k = choose|k: int| 0 <= k < users.len() && (#[trigger] users[k]).id == videos[i].author_id;
        assert(users.push(user)[k].id == videos[i].author_id);
    }
    if has_id(users, video.author_id) {
        assert forall|i: int| 0 <= i < videos.push(video).len() implies has_id(
            users,
            (#[trigger] videos.push(video)[i]).author_id,
        ) by {
            if i < videos.len() {
                assert(videos.push(video)[i] == videos[i]);
            }
        }
    }
}

/// A listing without a search term and one with an empty term are the same
/// listing, whatever the search engine says: every video, unfiltered.
pub proof fn lemma_empty_search_is_unfiltered(
    videos: Seq<VideoView>,
    users: Seq<UserView>,
    empty: &str,
    hits: Seq<SearchHit>,
    other_hits: Seq<SearchHit>,
)
    requires
        empty@.len() == 0,
    ensures
        listing(videos, users, query_of(Some(empty)), hits) == listing(
            videos,
            users,
            query_of(None),
            other_hits,
        ),
        listing(videos, users, query_of(None), other_hits) == join_all(videos, users),
{
}

/// Whether a hit has relevance and stands for this row.
pub open spec fn is_match_for(
    videos: Seq<VideoView>,
    users: Seq<UserView>,
    hit: SearchHit,
    row: VideoWithAuthorView,
) -> bool {
    hit.rank > 0 && ranked_row(videos, users, hit) == Some(RankedView { row, rank: hit.rank as int })
}

/// A search never returns a video without relevance: every row of the
/// listing comes from a hit of the same video whose rank is positive.
pub proof fn lemma_search_returns_matches_only(
    videos: Seq<VideoView>,
    users: Seq<UserView>,
    term: Seq<char>,
    hits: Seq<SearchHit>,
)
    ensures
        forall|i: int|
            0 <= i < listing(videos, users, ListQueryView::Search(term), hits).len() ==> exists|k: int|
                0 <= k < hits.len() && is_match_for(
                    videos,
                    users,
                    #[trigger] hits[k],
                    #[trigger] listing(videos, users, ListQueryView::Search(term), hits)[i],
                ),
{
    let rows = join_hits(videos, users, hits);
    let ordered = relevance_order(rows);
    crate::search::lemma_results_are_the_matches(rows);
    lemma_join_hits_origin(videos, users, hits);
    let out = listing(videos, users, ListQueryView::Search(term), hits);
    assert forall|i: int| 0 <= i < out.len() implies exists|k: int|
        0 <= k < hits.len() && is_match_for(videos, users, #[trigger] hits[k], #[trigger] out[i]) by {
        let j = choose|j: int| 0 <= j < rows.len() && rows[j] == ordered[i];
        let k = choose|k: int|
            0 <= k < hits.len() && ranked_row(videos, users, #[trigger] hits[k]) == Some(rows[j]);
        assert(is_match_for(videos, users, hits[k], out[i]));
    }
}

/// Every row that the hits stand for comes from one of the hits.
pub proof fn lemma_join_hits_origin(videos: Seq<VideoView>, users: Seq<UserView>, hits: Seq<SearchHit>)
    ensures
        forall|j: int|
            0 <= j < join_hits(videos, users, hits).len() ==> exists|k: int|
                0 <= k < hits.len() && ranked_row(videos, users, #[trigger] hits[k]) == Some(
                    #[trigger] join_hits(videos, users, hits)[j],
                ),
    decreases hits.len(),
{
    if hits.len() > 0 {
        let front = hits.drop_last();
        lemma_join_hits_origin(videos, users, front);
        let rows = join_hits(videos, users, hits);
        let before = join_hits(videos, users, front);
        assert forall|j: int| 0 <= j < rows.len() implies exists|k: int|
            0 <= k < hits.len() && ranked_row(videos, users, #[trigger] hits[k]) == Some(#[trigger] rows[j]) by {
            if j < before.len() {
                let k = choose|k: int|
                    0 <= k < front.len() && ranked_row(videos, users, #[trigger] front[k]) == Some(before[j]);
                assert(hits[k] == front[k]);
            }
        }
    }
}

/// No two hits are of the same video.
pub open spec fn distinct_hits(hits: Seq<SearchHit>) -> bool {
    forall|i: int, j: int| 0 <= i < j < hits.len() ==> (#[trigger] hits[i]).video_id != (#[trigger] hits[j]).video_id
}

/// Every hit whose video and author exist has its row among the rows that
/// the hits stand for.
pub proof fn lemma_join_hits_complete(videos: Seq<VideoView>, users: Seq<UserView>, hits: Seq<SearchHit>)
    ensures
        forall|k: int|
            0 <= k < hits.len() && ranked_row(videos, users, #[trigger] hits[k]) is Some ==> join_hits(
                videos,
                users,
                hits,
            ).contains(ranked_row(videos, users, hits[k])->0),
    decreases hits.len(),
{
    if hits.len() > 0 {
        let front = hits.drop_last();
        lemma_join_hits_complete(videos, users, front);
        let rows = join_hits(videos, users, hits);
        let before = join_hits(videos, users, front);
        assert forall|k: int|
            0 <= k < hits.len() && ranked_row(videos, users, #[trigger] hits[k]) is Some implies rows.contains(
            ranked_row(videos, users, hits[k])->0,
        ) by {
            let row = ranked_row(videos, users, hits[k])->0;
            if k < front.len() {
                assert(front[k] == hits[k]);
                let m = choose|m: int| 0 <= m < before.len() && before[m] == row;
                assert(rows[m] == row);
            } else {
                assert(rows[rows.len() - 1] == row);
            }
        }
    }
}

/// Hits of different videos stand for rows of different videos.
pub proof fn lemma_join_hits_distinct(videos: Seq<VideoView>, users: Seq<UserView>, hits: Seq<SearchHit>)
    requires
        distinct_hits(hits),
    ensures
        crate::search::distinct_videos(join_hits(videos, users, hits)),
    decreases hits.len(),
{
    if hits.len() > 0 {
        let front = hits.drop_last();
        assert(distinct_hits(front)) by {
            assert forall|i: int, j: int| 0 <= i < j < front.len() implies (#[trigger] front[i]).video_id != (
            #[trigger] front[j]).video_id by {
                assert(front[i] == hits[i] && front[j] == hits[j]);
            }
        }
        lemma_join_hits_distinct(videos, users, front);
        lemma_join_hits_origin(videos, users, front);
        let rows = join_hits(videos, users, hits);
        let before = join_hits(videos, users, front);
        assert forall|i: int, j: int| 0 <= i < j < rows.len() implies (#[trigger] rows[i]).row.video.id != (
        #[trigger] rows[j]).row.video.id by {
            if j < before.len() {
                assert(rows[i] == before[i] && rows[j] == before[j]);
            } else {
                assert(rows[i] == before[i]);
                let k = choose|k: int|
                    0 <= k < front.len() && ranked_row(videos, users, #[trigger] front[k]) == Some(before[i]);
                assert(front[k] == hits[k]);
                assert(hits[k].video_id != hits[hits.len() - 1].video_id);
                assert(ranked_row(videos, users, hits.last()) == Some(rows[j]));
            }
        }
    }
}

/// A search lists every match: each hit with relevance whose video and
/// author exist has its row in the listing.
pub proof fn lemma_search_lists_every_match(
    videos: Seq<VideoView>,
    users: Seq<UserView>,
    term: Seq<char>,
    hits: Seq<SearchHit>,
)
    ensures
        forall|k: int, row: VideoWithAuthorView|
            0 <= k < hits.len() && #[trigger] is_match_for(videos, users, hits[k], row) ==> listing(
                videos,
                users,
                ListQueryView::Search(term),
                hits,
            ).contains(row),
{
    let rows = join_hits(videos, users, hits);
    let ordered = relevance_order(rows);
    let out = listing(videos, users, ListQueryView::Search(term), hits);
    crate::search::lemma_results_are_the_matches(rows);
    lemma_join_hits_complete(videos, users, hits);
    assert forall|k: int, row: VideoWithAuthorView|
        0 <= k < hits.len() && #[trigger] is_match_for(videos, users, hits[k], row) implies out.contains(
        row,
    ) by {
        let ranked = RankedView { row, rank: hits[k].rank as int };
        assert(rows.contains(ranked));
        let j = choose|j: int| 0 <= j < rows.len() && rows[j] == ranked;
        assert(ordered.contains(rows[j]));
        let i = choose|i: int| 0 <= i < ordered.len() && ordered[i] == ranked;
        assert(out[i] == row);
    }
}

/// A search lists by rank: of two rows of the listing, the earlier comes
/// from a hit whose rank is not lower than that of the later row's hit, and
/// where the ranks are equal its video does not have the higher id.
pub proof fn lemma_search_follows_ranks(
    videos: Seq<VideoView>,
    users: Seq<UserView>,
    term: Seq<char>,
    hits: Seq<SearchHit>,
    i: int,
    j: int,
)
    requires
        0 <= i < j < listing(videos, users, ListQueryView::Search(term), hits).len(),
    ensures
        exists|a: int, b: int|
            {
                let out = listing(videos, users, ListQueryView::Search(term), hits);
                &&& 0 <= a < hits.len() && 0 <= b < hits.len()
                &&& is_match_for(videos, users, #[trigger] hits[a], out[i])
                &&& is_match_for(videos, users, #[trigger] hits[b], out[j])
                &&& hits[a].rank >= hits[b].rank
                &&& hits[a].rank == hits[b].rank ==> out[i].video.id <= out[j].video.id
            },
{
    let rows = join_hits(videos, users, hits);
    let ordered = relevance_order(rows);
    let out = listing(videos, users, ListQueryView::Search(term), hits);
    crate::search::lemma_results_are_the_matches(rows);
    crate::search::lemma_results_in_order(rows);
    lemma_join_hits_origin(videos, users, hits);
    assert(rows.contains(ordered[i]) && rows.contains(ordered[j]));
    let p = choose|p: int| 0 <= p < rows.len() && rows[p] == ordered[i];
    let q = choose|q: int| 0 <= q < rows.len() && rows[q] == ordered[j];
    let a = choose|a: int| 0 <= a < hits.len() && ranked_row(videos, users, #[trigger] hits[a]) == Some(rows[p]);
    let b = choose|b: int| 0 <= b < hits.len() && ranked_row(videos, users, #[trigger] hits[b]) == Some(rows[q]);
    assert(!crate::search::precedes(ordered[j], ordered[i]));
    assert(is_match_for(videos, users, hits[a], out[i]));
    assert(is_match_for(videos, users, hits[b], out[j]));
}

/// The listing of a search does not depend on the order in which the search
/// engine gave its hits: two lists of the same hits, each with one hit for a
/// video, give the same listing.
pub proof fn lemma_listing_ignores_hit_order(
    videos: Seq<VideoView>,
    users: Seq<UserView>,
    term: Seq<char>,
    hits: Seq<SearchHit>,
    other: Seq<SearchHit>,
)
    requires
        distinct_hits(hits),
        distinct_hits(other),
        hits.to_multiset() == other.to_multiset(),
    ensures
        listing(videos, users, ListQueryView::Search(term), hits) == listing(
            videos,
            users,
            ListQueryView::Search(term),
            other,
        ),
{
    let a = join_hits(videos, users, hits);
    let b = join_hits(videos, users, other);
    lemma_join_hits_distinct(videos, users, hits);
    lemma_join_hits_distinct(videos, users, other);
    lemma_join_hits_origin(videos, users, hits);
    lemma_join_hits_origin(videos, users, other);
    lemma_join_hits_complete(videos, users, hits);
    lemma_join_hits_complete(videos, users, other);
    assert forall|row: RankedView| #[trigger] a.contains(row) <==> b.contains(row) by {
        if a.contains(row) {
            let j = choose|j: int| 0 <= j < a.len() && a[j] == row;
            let k = choose|k: int|
                0 <= k < hits.len() && ranked_row(videos, users, #[trigger] hits[k]) == Some(a[j]);
            vstd::seq_lib::to_multiset_contains(hits, hits[k]);
            vstd::seq_lib::to_multiset_contains(other, hits[k]);
            assert(hits.contains(hits[k]));
            let m = choose|m: int| 0 <= m < other.len() && other[m] == hits[k];
            assert(ranked_row(videos, users, other[m]) is Some);
        }
        if b.contains(row) {
            let j = choose|j: int| 0 <= j < b.len() && b[j] == row;
            let k = choose|k: int|
                0 <= k < other.len() && ranked_row(videos, users, #[trigger] other[k]) == Some(b[j]);
            vstd::seq_lib::to_multiset_contains(other, other[k]);
            vstd::seq_lib::to_multiset_contains(hits, other[k]);
            assert(other.contains(other[k]));
            let m = choose|m: int| 0 <= m < hits.len() && hits[m] == other[k];
            assert(ranked_row(videos, users, hits[m]) is Some);
        }
    }
    crate::search::lemma_order_ignores_input_order(a, b);
}

/// The video table, held in memory.
#[derive(Clone, Debug)]
pub struct VideoStore {
    rows: Vec<Video>,
    next_id: i32,
}

impl VideoStore {
    /// The rows, in the order of their insertion.
    pub closed spec fn rows(&self) -> Seq<VideoView> {
        video_views(self.rows@)
    }

    /// The id that the next insert assigns.
    pub closed spec fn next_id(&self) -> int {
        self.next_id as int
    }

    /// The table's invariant.
    pub open spec fn wf(&self) -> bool {
        valid_videos(self.rows(), self.next_id())
    }

    /// An empty table, whose first id is 1.
    pub fn new() -> (store: VideoStore)
        ensures
            store.wf(),
            store.rows() == Seq::<VideoView>::empty(),
            store.next_id() == 1,
    {
        VideoStore { rows: Vec::new(), next_id: 1 }
    }

    fn position_of_id(&self, id: i32) -> (found: Option<usize>)
        ensures
            match found {
                Some(i) => i < self.rows().len() && self.rows()[i as int].id == id,
                None => !has_video(self.rows(), id as int),
            },
    {
        let mut i: usize = 0;
        while i < self.rows.len()
            invariant
                i <= self.rows.len(),
                forall|j: int| 0 <= j < i ==> (#[trigger] self.rows()[j]).id != id,
            decreases self.rows.len() - i,
        {
            if self.rows[i].id == id {
                return Some(i);
            }
            i += 1;
        }
        None
    }

    /// Stores a new video under the next id, with the given publication time.
    /// The record is the new video with the two assigned fields and nothing
    /// else changed. A refused insert changes nothing.
    pub fn insert(&mut self, users: &UserStore, new_video: NewVideo, published_at: i64) -> (res: Result<
        Video,
        ApiError,
    >)
        requires
            old(self).wf(),
            users.wf(),
        ensures
            final(self).wf(),
            match insert_refusal(
                old(self).next_id(),
                users.rows(),
                new_video.duration_seconds as int,
                new_video.author_id as int,
            ) {
                Some(kind) => {
                    &&& res matches Err(e)
                    &&& e.kind == kind
                    &&& final(self).rows() == old(self).rows()
                    &&& final(self).next_id() == old(self).next_id()
                },
                None => {
                    &&& res matches Ok(video)
                    &&& video@ == stored_video(new_video@, old(self).next_id(), published_at as int)
                    &&& final(self).rows() == old(self).rows().push(video@)
                    &&& final(self).next_id() == old(self).next_id() + 1
                },
            },
    {
        if new_video.duration_seconds < 0 {
            return Err(ApiError::new(ErrorKind::InvalidMedia, "Duration must not be negative"));
        }
        if users.find_by_id(new_video.author_id).is_none() {
            return Err(ApiError::new(ErrorKind::InternalError, "Author does not exist"));
        }
        if self.next_id == i32::MAX {
            return Err(ApiError::new(ErrorKind::InternalError, "No video id is left"));
        }
        let video = Video {
            id: self.next_id,
            title: new_video.title,
            description: new_video.description,
            duration_seconds: new_video.duration_seconds,
            bucket: new_video.bucket,
            published_at,
            author_id: new_video.author_id,
        };
        let copy = video.duplicate();
        let ghost before = self.rows();
        self.next_id = self.next_id + 1;
        self.rows.push(video);
        proof {
            assert(self.rows() =~= before.push(copy@));
        }
        Ok(copy)
    }

    /// The video with this id; `NotFound` where there is none.
    pub fn get(&self, id: i32) -> (res: Result<Video, ApiError>)
        requires
            self.wf(),
        ensures
            match video_with_id(self.rows(), id as int) {
                Some(video) => res matches Ok(found) && found@ == video,
                None => res matches Err(e) && is_not_found(e),
            },
    {
        self.find(id).map_not_found()
    }

    /// The video with this id, if there is one.
    pub fn find(&self, id: i32) -> (found: Option<Video>)
        requires
            self.wf(),
        ensures
            video_view_of(found) == video_with_id(self.rows(), id as int),
    {
        match self.position_of_id(id) {
            Some(i) => {
                proof {
                    lemma_video_with_id(self.rows(), self.next_id(), i as int);
                }
                Some(self.rows[i].duplicate())
            },
            None => None,
        }
    }

    /// The videos that a user published, in the order of the table.
    pub fn by_author(&self, author_id: i32) -> (videos: Vec<Video>)
        ensures
            video_views(videos@) == videos_of(self.rows(), author_id as int),
    {
        let mut videos: Vec<Video> = Vec::new();
        let mut i: usize = 0;
        while i < self.rows.len()
            invariant
                i <= self.rows.len(),
                video_views(videos@) == videos_of(self.rows().take(i as int), author_id as int),
            decreases self.rows.len() - i,
        {
            proof {
                assert(self.rows().take(i + 1).drop_last() == self.rows().take(i as int));
            }
            if self.rows[i].author_id == author_id {
                videos.push(self.rows[i].duplicate());
            }
            i += 1;
        }
        proof {
            assert(self.rows().take(i as int) == self.rows());
        }
        videos
    }

    /// Every video joined with its author, in the order of the table.
    pub fn join_authors(&self, users: &UserStore) -> (rows: Vec<VideoWithAuthor>)
        requires
            users.wf(),
        ensures
            joined_views(rows@) == join_all(self.rows(), users.rows()),
    {
        let mut rows: Vec<VideoWithAuthor> = Vec::new();
        let mut i: usize = 0;
        while i < self.rows.len()
            invariant
                i <= self.rows.len(),
                users.wf(),
                joined_views(rows@) == join_all(self.rows().take(i as int), users.rows()),
            decreases self.rows.len() - i,
        {
            proof {
                assert(self.rows().take(i + 1).drop_last() == self.rows().take(i as int));
            }
            match users.find_by_id(self.rows[i].author_id) {
                Some(author) => {
                    let row = VideoWithAuthor { video: self.rows[i].duplicate(), author };
                    rows.push(row);
                },
                None => {},
            }
            i += 1;
        }
        proof {
            assert(self.rows().take(i as int) == self.rows());
        }
        rows
    }

    /// The rows that the hits of a search stand for, in the order of the
    /// hits. A hit whose video or author does not exist stands for nothing.
    pub fn join_ranked(&self, users: &UserStore, hits: &Vec<SearchHit>) -> (rows: Vec<RankedVideo>)
        requires
            self.wf(),
            users.wf(),
        ensures
            ranked_views(rows@) == join_hits(self.rows(), users.rows(), hits@),
    {
        let mut rows: Vec<RankedVideo> = Vec::new();
        let mut i: usize = 0;
        while i < hits.len()
            invariant
                i <= hits.len(),
                self.wf(),
                users.wf(),
                ranked_views(rows@) == join_hits(self.rows(), users.rows(), hits@.take(i as int)),
            decreases hits.len() - i,
        {
            proof {
                assert(hits@.take(i + 1).drop_last() == hits@.take(i as int));
            }
            let hit = hits[i];
            match self.find(hit.video_id) {
                Some(video) => match users.find_by_id(video.author_id) {
                    Some(author) => {
                        let row = RankedVideo { row: VideoWithAuthor { video, author }, rank: hit.rank };
                        rows.push(row);
                    },
                    None => {},
                },
                None => {},
            }
            i += 1;
        }
        proof {
            assert(hits@.take(i as int) == hits@);
        }
        rows
    }

    /// The number of videos.
    pub fn len(&self) -> (n: usize)
        ensures
            n == self.rows().len(),
    {
        self.rows.len()
    }
}

/// Lists videos with their authors. Without a search term, or with an empty
/// one, the list holds every video and the hits are not looked at. With a
/// term, `hits` holds what the search engine found for it, and the list holds
/// the videos with relevance: highest rank first, lower id first among equal
/// ranks.
pub fn list_videos(videos: &VideoStore, users: &UserStore, search: Option<&str>, hits: &Vec<SearchHit>) -> (rows:
    Vec<VideoWithAuthor>)
    requires
        videos.wf(),
        users.wf(),
    ensures
        joined_views(rows@) == listing(videos.rows(), users.rows(), query_of(search), hits@),
{
    match list_query(search) {
        ListQuery::All => videos.join_authors(users),
        ListQuery::Search(_) => strip_ranks(order_by_relevance(videos.join_ranked(users, hits))),
    }
}

/// Looks a video up by its id; `NotFound` where there is none.
pub fn get_video(videos: &VideoStore, id: i32) -> (res: Result<Video, ApiError>)
    requires
        videos.wf(),
    ensures
        match video_with_id(videos.rows(), id as int) {
            Some(video) => res matches Ok(found) && found@ == video,
            None => res matches Err(e) && is_not_found(e),
        },
{
    videos.get(id)
}

} // verus!
