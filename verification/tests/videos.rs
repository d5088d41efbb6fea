use video_backend::auth::{register, UserInfo};
use video_backend::errors::{ApiError, ErrorKind};
use video_backend::ingest::{get_video_duration, persisted, Upload, MICROS_PER_SECOND};
use video_backend::likes::LikeStore;
use video_backend::models::{Like, NewVideo, User, Video, VideoWithAuthor};
use video_backend::search::{list_query, order_by_relevance, strip_ranks, ListQuery, RankedVideo};
use video_backend::users::UserStore;
use video_backend::videos::{get_video, list_videos, SearchHit, VideoStore};

fn user(users: &mut UserStore, name: &str) -> User {
    users.insert(name.to_string(), "hash".to_string()).unwrap()
}

fn new_video(title: &str, description: &str, author_id: i32) -> NewVideo {
    NewVideo {
        title: title.to_string(),
        description: description.to_string(),
        bucket: "0b0e7a52-3c57-4c3b-9d5e-0f3c5b1a2d4e".to_string(),
        duration_seconds: 61,
        author_id,
    }
}

fn ranked(id: i32, rank: u32) -> RankedVideo {
    RankedVideo {
        row: VideoWithAuthor {
            video: Video {
                id,
                title: format!("video {}", id),
                description: String::new(),
                duration_seconds: 1,
                bucket: "k".to_string(),
                published_at: 0,
                author_id: 1,
            },
            author: User { id: 1, username: "alice".to_string(), password: "h".to_string() },
        },
        rank,
    }
}

fn ids(rows: &[RankedVideo]) -> Vec<i32> {
    rows.iter().map(|r| r.row.video.id).collect()
}

fn not_found() -> ApiError {
    ApiError { kind: ErrorKind::NotFound, message: "Not Found".to_string() }
}

#[test]
fn insert_assigns_id_and_publication_time() {
    let mut users = UserStore::new();
    let alice = user(&mut users, "alice");
    let mut videos = VideoStore::new();
    let video = videos.insert(&users, new_video("Cats", "playing", alice.id), 1_700_000_000_000_000).unwrap();
    assert_eq!(
        video,
        Video {
            id: 1,
            title: "Cats".to_string(),
            description: "playing".to_string(),
            duration_seconds: 61,
            bucket: "0b0e7a52-3c57-4c3b-9d5e-0f3c5b1a2d4e".to_string(),
            published_at: 1_700_000_000_000_000,
            author_id: alice.id,
        }
    );
    let second = videos.insert(&users, new_video("Dogs", "", alice.id), 5).unwrap();
    assert_eq!(second.id, 2);
    assert_eq!(videos.len(), 2);
}

#[test]
fn insert_refuses_a_negative_duration() {
    let mut users = UserStore::new();
    let alice = user(&mut users, "alice");
    let mut videos = VideoStore::new();
    let mut bad = new_video("Cats", "", alice.id);
    bad.duration_seconds = -1;
    assert_eq!(videos.insert(&users, bad, 0).unwrap_err().kind, ErrorKind::InvalidMedia);
    assert_eq!(videos.len(), 0);
    let mut zero = new_video("Cats", "", alice.id);
    zero.duration_seconds = 0;
    assert_eq!(videos.insert(&users, zero, 0).unwrap().id, 1);
}

#[test]
fn insert_refuses_an_author_that_is_no_user() {
    let users = UserStore::new();
    let mut videos = VideoStore::new();
    assert_eq!(videos.insert(&users, new_video("Cats", "", 1), 0).unwrap_err().kind, ErrorKind::InternalError);
    assert_eq!(videos.len(), 0);
}

#[test]
fn get_finds_a_video_or_reports_not_found() {
    let mut users = UserStore::new();
    let alice = user(&mut users, "alice");
    let mut videos = VideoStore::new();
    let first = videos.insert(&users, new_video("a", "", alice.id), 1).unwrap();
    let second = videos.insert(&users, new_video("b", "", alice.id), 2).unwrap();
    assert_eq!(videos.get(1), Ok(first.clone()));
    assert_eq!(get_video(&videos, 2), Ok(second));
    assert_eq!(videos.get(3), Err(not_found()));
    assert_eq!(get_video(&videos, 0), Err(not_found()));
    assert_eq!(get_video(&videos, -1), Err(not_found()));
    assert_eq!(videos.find(1), Some(first));
    assert_eq!(videos.find(9), None);
}

#[test]
fn list_query_is_a_search_only_for_a_term() {
    assert_eq!(list_query(None), ListQuery::All);
    assert_eq!(list_query(Some("")), ListQuery::All);
    assert_eq!(list_query(Some("piano")), ListQuery::Search("piano".to_string()));
    assert_eq!(list_query(Some(" ")), ListQuery::Search(" ".to_string()));
}

#[test]
fn listing_without_a_term_holds_every_video() {
    let mut users = UserStore::new();
    let alice = user(&mut users, "alice");
    let bob = user(&mut users, "bob");
    let mut videos = VideoStore::new();
    let a = videos.insert(&users, new_video("a", "", alice.id), 1).unwrap();
    let b = videos.insert(&users, new_video("b", "", bob.id), 2).unwrap();
    let c = videos.insert(&users, new_video("c", "", alice.id), 3).unwrap();
    let expected = vec![
        VideoWithAuthor { video: a, author: alice.clone() },
        VideoWithAuthor { video: b, author: bob },
        VideoWithAuthor { video: c, author: alice },
    ];
    let none = list_videos(&videos, &users, None, &vec![]);
    let empty = list_videos(&videos, &users, Some(""), &vec![]);
    assert_eq!(none, expected);
    assert_eq!(empty, expected);
    let hits = vec![SearchHit { video_id: 2, rank: 9 }];
    assert_eq!(list_videos(&videos, &users, None, &hits), expected);
    assert_eq!(list_videos(&videos, &users, Some(""), &hits), expected);
}

#[test]
fn a_search_returns_matches_by_rank_then_id() {
    let mut users = UserStore::new();
    let alice = user(&mut users, "alice");
    let mut videos = VideoStore::new();
    for title in ["one", "two", "three", "four", "five"] {
        videos.insert(&users, new_video(title, "", alice.id), 0).unwrap();
    }
    let hits = vec![
        SearchHit { video_id: 4, rank: 10 },
        SearchHit { video_id: 1, rank: 0 },
        SearchHit { video_id: 5, rank: 30 },
        SearchHit { video_id: 2, rank: 10 },
        SearchHit { video_id: 77, rank: 99 },
        SearchHit { video_id: 3, rank: 20 },
    ];
    let listed = list_videos(&videos, &users, Some("x"), &hits);
    let order: Vec<i32> = listed.iter().map(|row| row.video.id).collect();
    assert_eq!(order, vec![5, 3, 2, 4]);
    assert!(listed.iter().all(|row| row.author == alice));
}

#[test]
fn a_search_without_hits_is_empty() {
    let mut users = UserStore::new();
    let alice = user(&mut users, "alice");
    let mut videos = VideoStore::new();
    videos.insert(&users, new_video("Cats", "", alice.id), 0).unwrap();
    assert_eq!(list_videos(&videos, &users, Some("xyz"), &vec![]), vec![]);
    let zero = vec![SearchHit { video_id: 1, rank: 0 }];
    assert_eq!(list_videos(&videos, &users, Some("xyz"), &zero), vec![]);
}

#[test]
fn order_by_relevance_sorts_and_drops_zero_ranks() {
    let rows = vec![ranked(3, 5), ranked(1, 0), ranked(2, 9), ranked(9, 5), ranked(4, 1), ranked(6, 9)];
    let ordered = order_by_relevance(rows);
    assert_eq!(ids(&ordered), vec![2, 6, 3, 9, 4]);
    let ranks: Vec<u32> = ordered.iter().map(|r| r.rank).collect();
    assert_eq!(ranks, vec![9, 9, 5, 5, 1]);
}

#[test]
fn order_by_relevance_on_edge_inputs() {
    assert_eq!(order_by_relevance(vec![]), vec![]);
    assert_eq!(order_by_relevance(vec![ranked(1, 0), ranked(2, 0)]), vec![]);
    assert_eq!(order_by_relevance(vec![ranked(1, 1)]), vec![ranked(1, 1)]);
    assert_eq!(ids(&order_by_relevance(vec![ranked(1, u32::MAX), ranked(2, 1)])), vec![1, 2]);
    assert_eq!(ids(&order_by_relevance(vec![ranked(2, 1), ranked(1, u32::MAX)])), vec![1, 2]);
}

#[test]
fn higher_rank_comes_first_whatever_the_input_order() {
    let inputs = [
        vec![ranked(1, 3), ranked(2, 7)],
        vec![ranked(2, 7), ranked(1, 3)],
    ];
    for rows in inputs {
        assert_eq!(ids(&order_by_relevance(rows)), vec![2, 1]);
    }
}

#[test]
fn strip_ranks_keeps_rows_and_order() {
    let rows = vec![ranked(3, 5), ranked(1, 0)];
    let expected: Vec<VideoWithAuthor> = rows.iter().map(|r| r.row.clone()).collect();
    assert_eq!(strip_ranks(rows), expected);
    assert_eq!(strip_ranks(vec![]), vec![]);
}

#[test]
fn duration_is_whole_seconds_of_the_probe() {
    assert_eq!(MICROS_PER_SECOND, 1_000_000);
    assert_eq!(get_video_duration(Ok(12_345_678)), Ok(12));
    assert_eq!(get_video_duration(Ok(0)), Ok(0));
    assert_eq!(get_video_duration(Ok(999_999)), Ok(0));
    assert_eq!(get_video_duration(Ok(1_000_000)), Ok(1));
    assert_eq!(get_video_duration(Ok(i64::MAX)), Ok(9_223_372_036_854));
}

#[test]
fn a_file_without_duration_is_invalid_media() {
    assert_eq!(get_video_duration(Ok(-1)).unwrap_err().kind, ErrorKind::InvalidMedia);
    assert_eq!(get_video_duration(Ok(i64::MIN)).unwrap_err().kind, ErrorKind::InvalidMedia);
    let e = get_video_duration(Err("Invalid data found when processing input".to_string())).unwrap_err();
    assert_eq!(e.kind, ErrorKind::InvalidMedia);
    assert_eq!(e.message, "Invalid data found when processing input");
}

#[test]
fn an_upload_goes_through_its_steps() {
    let mut users = UserStore::new();
    let alice = user(&mut users, "alice");
    let upload = Upload::begin("Cats playing piano".to_string(), "at home".to_string(), &alice);
    let staged = upload.probed_with_key(Ok(90_500_000), "some-key".to_string()).unwrap();
    assert_eq!(staged.key(), "some-key");
    assert_eq!(staged.duration_seconds(), 90);
    let record = staged.stored(Ok(())).unwrap();
    assert_eq!(
        record,
        NewVideo {
            title: "Cats playing piano".to_string(),
            description: "at home".to_string(),
            bucket: "some-key".to_string(),
            duration_seconds: 90,
            author_id: alice.id,
        }
    );
}

#[test]
fn a_fresh_key_is_uuid_shaped_and_new_each_time() {
    let alice = User { id: 1, username: "alice".to_string(), password: "h".to_string() };
    let first = Upload::begin("a".to_string(), "b".to_string(), &alice).probed(Ok(1)).unwrap();
    let second = Upload::begin("a".to_string(), "b".to_string(), &alice).probed(Ok(1)).unwrap();
    assert_ne!(first.key(), second.key());
    for key in [first.key(), second.key()] {
        assert_eq!(key.len(), 36);
        for (i, c) in key.chars().enumerate() {
            if i == 8 || i == 13 || i == 18 || i == 23 {
                assert_eq!(c, '-');
            } else {
                assert!(c.is_ascii_digit() || ('a'..='f').contains(&c));
            }
        }
        assert_eq!(key.chars().nth(14), Some('4'));
        assert!(matches!(key.chars().nth(19), Some('8') | Some('9') | Some('a') | Some('b')));
    }
}

#[test]
fn an_upload_that_is_no_media_stops_at_the_probe() {
    let alice = User { id: 1, username: "alice".to_string(), password: "h".to_string() };
    let e = Upload::begin("a".to_string(), "b".to_string(), &alice)
        .probed(Err("not a container".to_string()))
        .unwrap_err();
    assert_eq!(e.kind, ErrorKind::InvalidMedia);
    assert_eq!(e.message, "not a container");
    let e = Upload::begin("a".to_string(), "b".to_string(), &alice).probed(Ok(-5)).unwrap_err();
    assert_eq!(e.kind, ErrorKind::InvalidMedia);
}

#[test]
fn a_failed_store_ends_the_upload() {
    let alice = User { id: 1, username: "alice".to_string(), password: "h".to_string() };
    let staged = Upload::begin("a".to_string(), "b".to_string(), &alice).probed(Ok(1)).unwrap();
    let e = staged.stored(Err("bucket unreachable".to_string())).unwrap_err();
    assert_eq!(e.kind, ErrorKind::StorageUnavailable);
    assert_eq!(e.message, "bucket unreachable");
}

#[test]
fn a_failed_insert_is_an_internal_error() {
    let e = persisted(Err("connection lost".to_string())).unwrap_err();
    assert_eq!(e.kind, ErrorKind::InternalError);
    assert_eq!(e.message, "connection lost");
    let video = Video {
        id: 1,
        title: "t".to_string(),
        description: "d".to_string(),
        duration_seconds: 1,
        bucket: "k".to_string(),
        published_at: 2,
        author_id: 3,
    };
    assert_eq!(persisted(Ok(video.clone())), Ok(video));
}

#[test]
fn register_login_upload_search_and_like() {
    let mut users = UserStore::new();
    let mut videos = VideoStore::new();
    let mut likes = LikeStore::new();
    let secret = "secret";

    let credentials = UserInfo { username: "alice".to_string(), password: "pw123".to_string() };
    let alice = register(&mut users, credentials.clone()).unwrap();
    let token = video_backend::auth::login(&users, &credentials, secret).unwrap();
    let header = format!("Bearer {}", token);
    let logged_user = video_backend::auth::middleware(&users, Some(&header), secret).unwrap();
    assert_eq!(logged_user, alice);

    let upload = Upload::begin("Cats playing piano".to_string(), "".to_string(), &logged_user);
    let staged = upload.probed(Ok(3_000_000)).unwrap();
    let key = staged.key().to_string();
    let record = staged.stored(Ok(())).unwrap();
    let video = persisted(videos.insert(&users, record, 1_000).map_err(|e| e.message)).unwrap();
    assert_eq!(video.id, 1);
    assert_eq!(video.title, "Cats playing piano");
    assert_eq!(video.duration_seconds, 3);
    assert_eq!(video.bucket, key);
    assert_eq!(video.published_at, 1_000);
    assert_eq!(video.author_id, alice.id);

    let piano = vec![SearchHit { video_id: video.id, rank: 1 }];
    let found = list_videos(&videos, &users, Some("piano"), &piano);
    assert_eq!(found, vec![VideoWithAuthor { video: video.clone(), author: alice.clone() }]);
    assert_eq!(list_videos(&videos, &users, Some("xyz"), &vec![]), vec![]);

    likes.set_reaction(logged_user.id, video.id, Some(true));
    assert_eq!(likes.to_vec(), vec![Like { user_id: alice.id, video_id: video.id, is_liking: true }]);
    assert_eq!(likes.row_count(alice.id, video.id), 1);
}

#[test]
fn a_search_gives_the_same_list_for_hits_in_any_order() {
    let mut users = UserStore::new();
    let alice = user(&mut users, "alice");
    let mut videos = VideoStore::new();
    for title in ["one", "two", "three", "four"] {
        videos.insert(&users, new_video(title, "", alice.id), 0).unwrap();
    }
    let hits = vec![
        SearchHit { video_id: 1, rank: 5 },
        SearchHit { video_id: 2, rank: 9 },
        SearchHit { video_id: 3, rank: 5 },
        SearchHit { video_id: 4, rank: 0 },
    ];
    let expected = list_videos(&videos, &users, Some("x"), &hits);
    let order: Vec<i32> = expected.iter().map(|row| row.video.id).collect();
    assert_eq!(order, vec![2, 1, 3]);
    let orders = [[3, 2, 1, 0], [1, 0, 3, 2], [2, 3, 0, 1], [0, 3, 1, 2]];
    for order in orders {
        let shuffled: Vec<SearchHit> = order.iter().map(|&i| hits[i]).collect();
        assert_eq!(list_videos(&videos, &users, Some("x"), &shuffled), expected);
    }
}
