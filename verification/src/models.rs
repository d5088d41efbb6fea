//! The records of the three tables and the joined shapes that are handed
//! out, each with the mathematical value that the contracts speak of.

use vstd::prelude::*;

verus! {

/// A registered user. `password` holds the hash, never the plain text.
#[derive(Clone, Debug, PartialEq, Eq)]
pub struct User {
    pub id: i32,
    pub username: String,
    pub password: String,
}

/// What a [`User`] is in contracts.
pub ghost struct UserView {
    pub id: int,
    pub username: Seq<char>,
    pub password: Seq<char>,
}

impl View for User {
    type V = UserView;

    open spec fn view(&self) -> UserView {
        UserView { id: self.id as int, username: self.username@, password: self.password@ }
    }
}

impl User {
    /// A copy with the same fields.
    pub fn duplicate(&self) -> (res: User)
        ensures
            res@ == self@,
    {
        User { id: self.id, username: self.username.clone(), password: self.password.clone() }
    }
}

/// The views of a list of users, in order.
pub open spec fn user_views(users: Seq<User>) -> Seq<UserView> {
    Seq::new(users.len(), |i: int| users[i]@)
}

/// The view of a user that may be absent.
pub open spec fn user_view_of(user: Option<User>) -> Option<UserView> {
    match user {
        Some(u) => Some(u@),
        None => None,
    }
}

/// A stored video. `bucket` is the opaque key of its object; `published_at`
/// is the moment the record was stored, in microseconds since the epoch.
#[derive(Clone, Debug, PartialEq, Eq)]
pub struct Video {
    pub id: i32,
    pub title: String,
    pub description: String,
    pub duration_seconds: i64,
    pub bucket: String,
    pub published_at: i64,
    pub author_id: i32,
}

/// What a [`Video`] is in contracts.
pub ghost struct VideoView {
    pub id: int,
    pub title: Seq<char>,
    pub description: Seq<char>,
    pub duration_seconds: int,
    pub bucket: Seq<char>,
    pub published_at: int,
    pub author_id: int,
}

impl View for Video {
    type V = VideoView;

    open spec fn view(&self) -> VideoView {
        VideoView {
            id: self.id as int,
            title: self.title@,
            description: self.description@,
            duration_seconds: self.duration_seconds as int,
            bucket: self.bucket@,
            published_at: self.published_at as int,
            author_id: self.author_id as int,
        }
    }
}

impl Video {
    /// A copy with the same fields.
    pub fn duplicate(&self) -> (res: Video)
        ensures
            res@ == self@,
    {
        Video {
            id: self.id,
            title: self.title.clone(),
            description: self.description.clone(),
            duration_seconds: self.duration_seconds,
            bucket: self.bucket.clone(),
            published_at: self.published_at,
            author_id: self.author_id,
        }
    }
}

/// A video before it is stored: everything but the id and the publication
/// time, which the table assigns.
#[derive(Clone, Debug, PartialEq, Eq)]
pub struct NewVideo {
    pub title: String,
    pub description: String,
    pub bucket: String,
    pub duration_seconds: i64,
    pub author_id: i32,
}

/// What a [`NewVideo`] is in contracts.
pub ghost struct NewVideoView {
    pub title: Seq<char>,
    pub description: Seq<char>,
    pub bucket: Seq<char>,
    pub duration_seconds: int,
    pub author_id: int,
}

impl View for NewVideo {
    type V = NewVideoView;

    open spec fn view(&self) -> NewVideoView {
        NewVideoView {
            title: self.title@,
            description: self.description@,
            bucket: self.bucket@,
            duration_seconds: self.duration_seconds as int,
            author_id: self.author_id as int,
        }
    }
}

/// The record that a table makes of a new video under the id and the
/// publication time it assigns.
pub open spec fn stored_video(new_video: NewVideoView, id: int, published_at: int) -> VideoView {
    VideoView {
        id,
        title: new_video.title,
        description: new_video.description,
        duration_seconds: new_video.duration_seconds,
        bucket: new_video.bucket,
        published_at,
        author_id: new_video.author_id,
    }
}

/// The views of a list of videos, in order.
pub open spec fn video_views(videos: Seq<Video>) -> Seq<VideoView> {
    Seq::new(videos.len(), |i: int| videos[i]@)
}

/// The view of a video that may be absent.
pub open spec fn video_view_of(video: Option<Video>) -> Option<VideoView> {
    match video {
        Some(v) => Some(v@),
        None => None,
    }
}

/// A user together with the videos they published.
#[derive(Clone, Debug, PartialEq, Eq)]
pub struct UserWithVideos {
    pub user: User,
    pub videos: Vec<Video>,
}

/// What a [`UserWithVideos`] is in contracts.
pub ghost struct UserWithVideosView {
    pub user: UserView,
    pub videos: Seq<VideoView>,
}

impl View for UserWithVideos {
    type V = UserWithVideosView;

    open spec fn view(&self) -> UserWithVideosView {
        UserWithVideosView { user: self.user@, videos: video_views(self.videos@) }
    }
}

/// A video together with its author.
#[derive(Clone, Debug, PartialEq, Eq)]
pub struct VideoWithAuthor {
    pub video: Video,
    pub author: User,
}

/// What a [`VideoWithAuthor`] is in contracts.
pub ghost struct VideoWithAuthorView {
    pub video: VideoView,
    pub author: UserView,
}

impl View for VideoWithAuthor {
    type V = VideoWithAuthorView;

    open spec fn view(&self) -> VideoWithAuthorView {
        VideoWithAuthorView { video: self.video@, author: self.author@ }
    }
}

/// The views of a list of joined videos, in order.
pub open spec fn joined_views(rows: Seq<VideoWithAuthor>) -> Seq<VideoWithAuthorView> {
    Seq::new(rows.len(), |i: int| rows[i]@)
}

/// The reaction of one user to one video: the row of the reaction table.
#[derive(Clone, Copy, Debug, PartialEq, Eq, Structural)]
pub struct Like {
    pub user_id: i32,
    pub video_id: i32,
    pub is_liking: bool,
}

} // verus!
