//! The persisted records the pipeline works on: videos, users and
//! per-part upload rows, together with the verified record edits that the
//! store gateway persists.
//!
//! The store itself is an external collaborator; these types mirror its
//! fixed schema as plain values.

use vstd::prelude::*;
use vstd::string::*;
use crate::text::int_chars;
use crate::text::i32_to_string;

verus! {

/// The upload lifecycle of a whole video.
#[derive(Debug, Clone, Copy, PartialEq, Eq, Structural)]
pub enum Status {
    /// Segmentation is done; the video is eligible for upload.
    Split,
    /// An upload run has started working on the video.
    Uploading,
    /// At least one part upload has succeeded.
    PartiallyUploaded,
    /// Every part upload has succeeded.
    Uploaded,
    /// Reserved terminal failure state; not set by the pipeline.
    UploadFailed,
}

/// The upload lifecycle of one part.
#[derive(Debug, Clone, Copy, PartialEq, Eq, Structural)]
pub enum UploadStatus {
    /// An upload attempt for the part has begun.
    Uploading,
    /// The platform confirmed the part; its remote id is recorded.
    Uploaded,
}

/// One recording to be uploaded, split into ordered segments.
#[derive(Debug, Clone)]
pub struct VideosModel {
    pub id: i32,
    pub user_id: i32,
    pub name: String,
    pub created_at: String,
    pub status: Status,
    pub part_count: i32,
    pub twitch_id: String,
    pub twitch_preview_image_url: Option<String>,
    pub twitch_download_url: Option<String>,
    pub duration: i32,
    pub youtube_id: Option<String>,
    pub youtube_playlist_name: String,
    pub youtube_preview_image_url: Option<String>,
    pub youtube_playlist_id: Option<String>,
    pub youtube_playlist_created_at: Option<String>,
    pub fail_count: i32,
    pub fail_reason: Option<String>,
}

/// An account that owns videos and authenticates to the platform.
#[derive(Debug, Clone)]
pub struct UsersModel {
    pub id: i32,
    pub twitch_id: String,
    pub twitch_name: String,
    pub twitch_profile_image_url: Option<String>,
    pub youtube_id: String,
    pub youtube_name: String,
    pub youtube_profile_image_url: Option<String>,
    pub youtube_target_duration: i32,
    pub youtube_max_duration: i32,
    pub active: bool,
    pub timezone: String,
}

/// The persisted record of one part's upload attempt.
#[derive(Debug, Clone)]
pub struct VideoUploadModel {
    pub video_id: i32,
    pub part: i32,
    pub upload_status: UploadStatus,
    pub youtube_video_id: Option<String>,
}

pub(crate) fn clone_opt_string(o: &Option<String>) -> (r: Option<String>)
    ensures
        r == *o,
{
    match o {
        Option::Some(s) => Option::Some(s.clone()),
        Option::None => Option::None,
    }
}

/// One line of the failure log: attempt count, separator, message, blank
/// line, prior log.
pub open spec fn fail_log_chars(attempt: int, message: Seq<char>, previous: Seq<char>) -> Seq<
    char,
> {
    int_chars(attempt) + seq![':', ' '] + message + seq!['\n', '\n'] + previous
}

impl VideosModel {
    /// The same record with another lifecycle status.
    pub fn with_status(&self, status: Status) -> (v: VideosModel)
        ensures
            v == (VideosModel { status, ..*self }),
    {
        let mut v = self.clone_fields();
        v.status = status;
        v
    }

    /// The same record with the platform playlist id filled in.
    pub fn with_playlist_id(&self, playlist_id: String) -> (v: VideosModel)
        ensures
            v == (VideosModel { youtube_playlist_id: Some(playlist_id), ..*self }),
    {
        let mut v = self.clone_fields();
        v.youtube_playlist_id = Option::Some(playlist_id);
        v
    }

    /// The same record with one more failure recorded: the counter grows
    /// by one and a new diagnostic line is put before the prior log.
    pub fn with_failure(&self, message: &str) -> (v: VideosModel)
        requires
            self.fail_count < i32::MAX,
        ensures
            v.fail_count == self.fail_count + 1,
            v.fail_reason matches Some(r) && r@ == fail_log_chars(
                self.fail_count + 1,
                message@,
                match self.fail_reason {
                    Some(p) => p@,
                    None => Seq::<char>::empty(),
                },
            ),
            v == (VideosModel {
                fail_count: v.fail_count,
                fail_reason: v.fail_reason,
                ..*self
            }),
    {
        proof {
            reveal_strlit(": ");
            reveal_strlit("\n\n");
            assert(": "@ =~= seq![':', ' ']);
            assert("\n\n"@ =~= seq!['\n', '\n']);
        }
        let mut v = self.clone_fields();
        let attempt = self.fail_count + 1;
        let mut reason = i32_to_string(attempt);
        reason.append(": ");
        reason.append(message);
        reason.append("\n\n");
        match &self.fail_reason {
            Option::Some(p) => reason.append(p.as_str()),
            Option::None => (),
        }
        v.fail_count = attempt;
        v.fail_reason = Option::Some(reason);
        v
    }

    /// A field-for-field copy of the record.
    pub fn clone_fields(&self) -> (v: VideosModel)
        ensures
            v == *self,
    {
        VideosModel {
            id: self.id,
            user_id: self.user_id,
            name: self.name.clone(),
            created_at: self.created_at.clone(),
            status: self.status,
            part_count: self.part_count,
            twitch_id: self.twitch_id.clone(),
            twitch_preview_image_url: clone_opt_string(&self.twitch_preview_image_url),
            twitch_download_url: clone_opt_string(&self.twitch_download_url),
            duration: self.duration,
            youtube_id: clone_opt_string(&self.youtube_id),
            youtube_playlist_name: self.youtube_playlist_name.clone(),
            youtube_preview_image_url: clone_opt_string(&self.youtube_preview_image_url),
            youtube_playlist_id: clone_opt_string(&self.youtube_playlist_id),
            youtube_playlist_created_at: clone_opt_string(&self.youtube_playlist_created_at),
            fail_count: self.fail_count,
            fail_reason: clone_opt_string(&self.fail_reason),
        }
    }
}

impl VideoUploadModel {
    /// The fresh record inserted when an upload attempt for a part begins.
    pub fn new_uploading(video_id: i32, part: i32) -> (r: VideoUploadModel)
        ensures
            r == (VideoUploadModel {
                video_id,
                part,
                upload_status: UploadStatus::Uploading,
                youtube_video_id: None,
            }),
    {
        VideoUploadModel {
            video_id,
            part,
            upload_status: UploadStatus::Uploading,
            youtube_video_id: Option::None,
        }
    }

    /// The same record marked done, carrying the platform's remote id.
    pub fn with_uploaded(&self, youtube_video_id: String) -> (r: VideoUploadModel)
        ensures
            r == (VideoUploadModel {
                upload_status: UploadStatus::Uploaded,
                youtube_video_id: Some(youtube_video_id),
                ..*self
            }),
    {
        VideoUploadModel {
            video_id: self.video_id,
            part: self.part,
            upload_status: UploadStatus::Uploaded,
            youtube_video_id: Option::Some(youtube_video_id),
        }
    }
}

} // verus!
