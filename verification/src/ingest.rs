//! The upload pipeline. Its steps run in one order: the file is probed for
//! its duration, a fresh key is drawn, the file is stored under that key, and
//! only then is the record inserted. Each step hands on a value that the
//! next one needs, so no step can be skipped or taken early.
//!
//! Nothing is undone when a later step fails: an object whose record was
//! never inserted stays in the object store.

use crate::errors::{ApiError, ErrorKind};
use crate::models::{stored_video, NewVideo, NewVideoView, User, Video};
use crate::objects::ObjectStore;
use crate::users::UserStore;
use crate::videos::{insert_refusal, VideoStore};
use vstd::prelude::*;

verus! {

/// Microseconds in a second.
pub const MICROS_PER_SECOND: i64 = 1_000_000;

/// The whole seconds in a number of microseconds, rounded towards zero.
pub open spec fn whole_seconds_of(microseconds: int) -> int {
    if microseconds >= 0 {
        microseconds / 1_000_000
    } else {
        -((-microseconds) / 1_000_000)
    }
}

/// Whether a character is a lower-case hexadecimal digit.
pub open spec fn is_lower_hex(c: char) -> bool {
    ('0' <= c && c <= '9') || ('a' <= c && c <= 'f')
}

/// The shape of an object key: a version 4 UUID in its hyphenated lower-case
/// form, 36 characters with hyphens after 8, 12, 16 and 20 digits.
pub open spec fn is_uuid_shaped(key: Seq<char>) -> bool {
    &&& key.len() == 36
    &&& forall|i: int|
        0 <= i < 36 ==> if i == 8 || i == 13 || i == 18 || i == 23 {
            #[trigger] key[i] == '-'
        } else {
            is_lower_hex(key[i])
        }
    &&& key[14] == '4'
    &&& (key[19] == '8' || key[19] == '9' || key[19] == 'a' || key[19] == 'b')
}

/// Builds a `chrono::Duration` with `Duration::microseconds` and reads it with
/// `num_seconds`. Assumed, as the crate's source has it: the result is the
/// number of whole seconds, rounded towards zero, for every `i64`.
#[verifier::external_body]
fn whole_seconds(microseconds: i64) -> (seconds: i64)
    ensures
        seconds == whole_seconds_of(microseconds as int),
{
    chrono::Duration::microseconds(microseconds).num_seconds()
}

/// Draws a key with `uuid::Uuid::new_v4` and renders it with `to_string`.
/// The key is random; assumed is only its shape, which the crate documents.
#[verifier::external_body]
fn random_key() -> (key: String)
    ensures
        is_uuid_shaped(key@),
{
    uuid::Uuid::new_v4().to_string()
}

/// What probing an upload comes to: the duration in whole seconds where the
/// probe measured one that is not negative, else nothing.
pub open spec fn probed_duration(probe: Result<i64, String>) -> Option<int> {
    match probe {
        Ok(microseconds) => if microseconds >= 0 {
            Some(whole_seconds_of(microseconds as int))
        } else {
            None
        },
        Err(_) => None,
    }
}

/// The duration of an uploaded file in whole seconds, from what the probe
/// measured in microseconds. A file that the probe could not read as media,
/// or whose duration it gave as negative, is `InvalidMedia`; the probe's own
/// message is kept where it gave one.
pub fn get_video_duration(probe: Result<i64, String>) -> (res: Result<i64, ApiError>)
    ensures
        match probed_duration(probe) {
            Some(seconds) => res matches Ok(s) && s == seconds && s >= 0,
            None => res matches Err(e) && e.kind == ErrorKind::InvalidMedia,
        },
        probe matches Err(message) ==> res matches Err(e) && e.message@ == message@,
{
    match probe {
        Ok(microseconds) => {
            if microseconds >= 0 {
                Ok(whole_seconds(microseconds))
            } else {
                Err(ApiError::new(ErrorKind::InvalidMedia, "The file has no duration"))
            }
        },
        Err(message) => Err(ApiError { kind: ErrorKind::InvalidMedia, message }),
    }
}

/// An upload as it is received: the two texts and the uploading user.
#[derive(Debug)]
pub struct Upload {
    title: String,
    description: String,
    author_id: i32,
}

/// An upload whose file has been probed and whose key has been drawn, ready
/// to be stored.
#[derive(Debug)]
pub struct StagedUpload {
    title: String,
    description: String,
    author_id: i32,
    duration_seconds: i64,
    key: String,
}

impl View for StagedUpload {
    type V = NewVideoView;

    /// The record that the upload becomes once its file is stored.
    closed spec fn view(&self) -> NewVideoView {
        NewVideoView {
            title: self.title@,
            description: self.description@,
            bucket: self.key@,
            duration_seconds: self.duration_seconds as int,
            author_id: self.author_id as int,
        }
    }
}

impl Upload {
    /// The title as received.
    pub closed spec fn title(&self) -> Seq<char> {
        self.title@
    }

    /// The description as received.
    pub closed spec fn description(&self) -> Seq<char> {
        self.description@
    }

    /// The id of the uploading user.
    pub closed spec fn author_id(&self) -> int {
        self.author_id as int
    }

    /// Step one: receives the upload of a logged-in user.
    pub fn begin(title: String, description: String, author: &User) -> (upload: Upload)
        ensures
            upload.title() == title@,
            upload.description() == description@,
            upload.author_id() == author.id,
    {
        Upload { title, description, author_id: author.id }
    }

    /// Steps two and three, with the key given: takes the probe's outcome and
    /// stages the upload under the key. Without a duration the upload ends
    /// here as `InvalidMedia`, and nothing is stored.
    pub fn probed_with_key(self, probe: Result<i64, String>, key: String) -> (res: Result<StagedUpload, ApiError>)
        ensures
            match probed_duration(probe) {
                Some(seconds) => res matches Ok(staged) && staged@ == (NewVideoView {
                    title: self.title(),
                    description: self.description(),
                    bucket: key@,
                    duration_seconds: seconds,
                    author_id: self.author_id(),
                }) && seconds >= 0,
                None => res matches Err(e) && e.kind == ErrorKind::InvalidMedia,
            },
    {
        match get_video_duration(probe) {
            Ok(duration_seconds) => Ok(
                StagedUpload {
                    title: self.title,
                    description: self.description,
                    author_id: self.author_id,
                    duration_seconds,
                    key,
                },
            ),
            Err(e) => Err(e),
        }
    }

    /// Steps two and three: takes the probe's outcome and stages the upload
    /// under a fresh random key.
    pub fn probed(self, probe: Result<i64, String>) -> (res: Result<StagedUpload, ApiError>)
        ensures
            match probed_duration(probe) {
                Some(seconds) => {
                    &&& res matches Ok(staged)
                    &&& is_uuid_shaped(staged@.bucket)
                    &&& staged@.title == self.title()
                    &&& staged@.description == self.description()
                    &&& staged@.duration_seconds == seconds
                    &&& staged@.author_id == self.author_id()
                },
                None => res matches Err(e) && e.kind == ErrorKind::InvalidMedia,
            },
    {
        match probe {
            Ok(microseconds) if microseconds >= 0 => self.probed_with_key(Ok(microseconds), random_key()),
            other => self.probed_with_key(other, String::new()),
        }
    }
}

impl StagedUpload {
    /// The key under which the file is to be stored.
    pub fn key(&self) -> (key: &str)
        ensures
            key@ == self@.bucket,
    {
        self.key.as_str()
    }

    /// The duration that the probe measured, in whole seconds.
    pub fn duration_seconds(&self) -> (seconds: i64)
        ensures
            seconds == self@.duration_seconds,
    {
        self.duration_seconds
    }

    /// Step four: takes the outcome of storing the file. Where the object
    /// store failed the upload ends as `StorageUnavailable`, with the store's
    /// message; where it succeeded, the record to insert comes out.
    pub fn stored(self, put: Result<(), String>) -> (res: Result<NewVideo, ApiError>)
        ensures
            match put {
                Ok(_) => res matches Ok(new_video) && new_video@ == self@,
                Err(message) => res matches Err(e) && e.kind == ErrorKind::StorageUnavailable && e.message@
                    == message@,
            },
    {
        match put {
            Ok(_) => Ok(
                NewVideo {
                    title: self.title,
                    description: self.description,
                    bucket: self.key,
                    duration_seconds: self.duration_seconds,
                    author_id: self.author_id,
                },
            ),
            Err(message) => Err(ApiError { kind: ErrorKind::StorageUnavailable, message }),
        }
    }
}

/// Step five: takes the outcome of the insert. The stored record is handed
/// back as it is; a failed insert is an `InternalError` with the storage's
/// message.
pub fn persisted(insert: Result<Video, String>) -> (res: Result<Video, ApiError>)
    ensures
        match insert {
            Ok(video) => res == Ok::<Video, ApiError>(video),
            Err(message) => res matches Err(e) && e.kind == ErrorKind::InternalError && e.message@ == message@,
        },
{
    match insert {
        Ok(video) => Ok(video),
        Err(message) => Err(ApiError { kind: ErrorKind::InternalError, message }),
    }
}

/// How far an upload gets.
pub enum UploadEnd {
    /// The probe found no duration: nothing is stored and nothing inserted.
    NoMedia,
    /// The object store is out of reach: nothing is stored and nothing
    /// inserted.
    NoStore,
    /// The file is stored but the record is refused: the object stays.
    NoRecord,
    /// The file is stored and the record inserted.
    Stored,
}

/// How far an upload gets, from the probe's outcome, whether the object
/// store can be reached, and why the table would refuse the record.
pub open spec fn upload_end(probe: Result<i64, String>, available: bool, refusal: Option<ErrorKind>) -> UploadEnd {
    if probed_duration(probe) is None {
        UploadEnd::NoMedia
    } else if !available {
        UploadEnd::NoStore
    } else if refusal is Some {
        UploadEnd::NoRecord
    } else {
        UploadEnd::Stored
    }
}

/// What an upload under a given key does to the video table and the object
/// store, and what it returns.
pub open spec fn is_upload_under(
    key: Seq<char>,
    videos_before: VideoStore,
    videos_after: VideoStore,
    objects_before: ObjectStore,
    objects_after: ObjectStore,
    users: UserStore,
    author_id: int,
    title: Seq<char>,
    description: Seq<char>,
    file: Seq<u8>,
    probe: Result<i64, String>,
    now: int,
    res: Result<Video, ApiError>,
) -> bool {
    let duration = probed_duration(probe);
    let record = NewVideoView {
        title,
        description,
        bucket: key,
        duration_seconds: duration->0,
        author_id,
    };
    let refusal = insert_refusal(videos_before.next_id(), users.rows(), duration->0, author_id);
    let table_unchanged = videos_after.rows() == videos_before.rows() && videos_after.next_id()
        == videos_before.next_id();
    match upload_end(probe, objects_before.is_available(), refusal) {
        UploadEnd::NoMedia => {
            &&& res matches Err(e) && e.kind == ErrorKind::InvalidMedia
            &&& table_unchanged
            &&& objects_after.objects() == objects_before.objects()
        },
        UploadEnd::NoStore => {
            &&& res matches Err(e) && e.kind == ErrorKind::StorageUnavailable
            &&& table_unchanged
            &&& objects_after.objects() == objects_before.objects()
        },
        UploadEnd::NoRecord => {
            &&& res matches Err(e) && e.kind == ErrorKind::InternalError
            &&& table_unchanged
            &&& objects_after@ == objects_before@.insert(key, file)
        },
        UploadEnd::Stored => {
            &&& res matches Ok(video)
            &&& video@ == stored_video(record, videos_before.next_id(), now)
            &&& videos_after.rows() == videos_before.rows().push(video@)
            &&& videos_after.next_id() == videos_before.next_id() + 1
            &&& objects_after@ == objects_before@.insert(key, file)
        },
    }
}

/// Runs an upload under a given key against the video table and the object
/// store, step by step: the probe's outcome is taken, the file stored under
/// the key, the record inserted. A file without a duration ends the upload
/// before anything is stored or inserted; a store out of reach ends it
/// before anything is inserted; and a record that is refused leaves the
/// stored object behind.
pub fn upload_with_key(
    videos: &mut VideoStore,
    objects: &mut ObjectStore,
    users: &UserStore,
    author: &User,
    title: String,
    description: String,
    file: Vec<u8>,
    probe: Result<i64, String>,
    now: i64,
    key: String,
) -> (res: Result<Video, ApiError>)
    requires
        old(videos).wf(),
        old(objects).wf(),
        users.wf(),
    ensures
        final(videos).wf(),
        final(objects).wf(),
        final(objects).is_available() == old(objects).is_available(),
        is_upload_under(
            key@,
            *old(videos),
            *final(videos),
            *old(objects),
            *final(objects),
            *users,
            author.id as int,
            title@,
            description@,
            file@,
            probe,
            now as int,
            res,
        ),
{
    let staged = match Upload::begin(title, description, author).probed_with_key(probe, key) {
        Ok(staged) => staged,
        Err(e) => {
            return Err(e);
        },
    };
    let put = objects.put(staged.key(), file);
    let record = match staged.stored(put) {
        Ok(record) => record,
        Err(e) => {
            return Err(e);
        },
    };
    let inserted = match videos.insert(users, record, now) {
        Ok(video) => Ok(video),
        Err(e) => Err(e.message),
    };
    persisted(inserted)
}

/// Runs an upload under a fresh random key: what [`upload_with_key`] does
/// under some key of the shape of a UUID.
pub fn upload(
    videos: &mut VideoStore,
    objects: &mut ObjectStore,
    users: &UserStore,
    author: &User,
    title: String,
    description: String,
    file: Vec<u8>,
    probe: Result<i64, String>,
    now: i64,
) -> (res: Result<Video, ApiError>)
    requires
        old(videos).wf(),
        old(objects).wf(),
        users.wf(),
    ensures
        final(videos).wf(),
        final(objects).wf(),
        final(objects).is_available() == old(objects).is_available(),
        exists|key: Seq<char>|
            is_uuid_shaped(key) && #[trigger] is_upload_under(
                key,
                *old(videos),
                *final(videos),
                *old(objects),
                *final(objects),
                *users,
                author.id as int,
                title@,
                description@,
                file@,
                probe,
                now as int,
                res,
            ),
{
    let key = random_key();
    let ghost drawn = key@;
    let ghost videos_before = *videos;
    let ghost objects_before = *objects;
    let res = upload_with_key(videos, objects, users, author, title, description, file, probe, now, key);
    assert(is_upload_under(
        drawn,
        videos_before,
        *videos,
        objects_before,
        *objects,
        *users,
        author.id as int,
        title@,
        description@,
        file@,
        probe,
        now as int,
        res,
    ));
    res
}

/// A file that is no media leaves no trace: whatever the key, the table and
/// the object store are as they were and the failure is `InvalidMedia`.
pub proof fn lemma_failed_probe_changes_nothing(
    key: Seq<char>,
    videos_before: VideoStore,
    videos_after: VideoStore,
    objects_before: ObjectStore,
    objects_after: ObjectStore,
    users: UserStore,
    author_id: int,
    title: Seq<char>,
    description: Seq<char>,
    file: Seq<u8>,
    probe: Result<i64, String>,
    now: int,
    res: Result<Video, ApiError>,
)
    requires
        probed_duration(probe) is None,
        is_upload_under(
            key,
            videos_before,
            videos_after,
            objects_before,
            objects_after,
            users,
            author_id,
            title,
            description,
            file,
            probe,
            now,
            res,
        ),
    ensures
        res matches Err(e) && e.kind == ErrorKind::InvalidMedia,
        videos_after.rows() == videos_before.rows(),
        objects_after.objects() == objects_before.objects(),
        objects_after@ == objects_before@,
{
}

/// The duration depends on the probe's measurement alone, and a file without
/// one never becomes a record.
pub proof fn lemma_duration_is_determined(first: Result<i64, String>, second: Result<i64, String>)
    requires
        first matches Ok(a) && second matches Ok(b) && a == b,
    ensures
        probed_duration(first) == probed_duration(second),
        probed_duration(first) matches Some(seconds) ==> seconds >= 0,
{
}

} // verus!
