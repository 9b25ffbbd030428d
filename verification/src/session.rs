//! The per-video upload state machine and the batch runner around it.
//!
//! A run works strictly sequentially: the batch runner walks the
//! eligible videos one at a time; for each, an [`UploadSession`] is
//! planned from the validated segment listing and then driven forward
//! one event at a time (playlist known, part uploaded). The outside
//! work — store reads and writes, the platform calls, deleting a
//! finished segment file — happens between events, outside the library;
//! the session decides what each step may do and records what has
//! happened, and its well-formedness invariant carries the ordering and
//! resumability guarantees across those steps.

use vstd::prelude::*;
use vstd::string::*;
use vstd::pervasive::unreached;
use crate::data::{build_video_data, dates_parse, VideoData};
use crate::errors::UploaderError;
use crate::models::{clone_opt_string, Status, UploadStatus, UsersModel, VideosModel,
    VideoUploadModel};
use crate::parts::{
    all_parse, distinct_ordinal_count, distinct_ordinals, entry_error, first_bad_from,
    get_part_files, parsed_parts, strictly_sorted_by_part,
};

verus! {

/// One observable step of a session: the playlist came into being, a
/// part's upload attempt began (its store record was inserted), or a
/// part finished uploading.
#[derive(Debug, Clone, Copy, PartialEq, Eq, Structural)]
pub enum SessionEvent {
    PlaylistCreated,
    PartBegun(usize),
    PartUploaded(usize),
}

/// The part numbers uploaded over a history, in order.
pub open spec fn uploads_of(h: Seq<SessionEvent>) -> Seq<usize>
    decreases h.len(),
{
    if h.len() == 0 {
        Seq::empty()
    } else {
        let rest = uploads_of(h.drop_last());
        match h.last() {
            SessionEvent::PartUploaded(p) => rest.push(p),
            _ => rest,
        }
    }
}

/// The part numbers whose upload attempts began over a history, in
/// order.
pub open spec fn begins_of(h: Seq<SessionEvent>) -> Seq<usize>
    decreases h.len(),
{
    if h.len() == 0 {
        Seq::empty()
    } else {
        let rest = begins_of(h.drop_last());
        match h.last() {
            SessionEvent::PartBegun(p) => rest.push(p),
            _ => rest,
        }
    }
}

/// A playlist-creation event occurs in the history.
pub open spec fn playlist_created_in(h: Seq<SessionEvent>) -> bool {
    exists|i: int| 0 <= i < h.len() && h[i] is PlaylistCreated
}

/// Every part step — beginning one or finishing one — is preceded by
/// the playlist: either one was already persisted before the run, or a
/// creation event stands earlier in the history.
pub open spec fn ordered_history(h: Seq<SessionEvent>, had_playlist: bool) -> bool {
    forall|i: int|
        0 <= i < h.len() && (h[i] is PartBegun || h[i] is PartUploaded) ==> had_playlist
            || exists|j: int| 0 <= j < i && h[j] is PlaylistCreated
}

/// Every finished part was begun earlier: its store record was inserted
/// before the upload completed.
pub open spec fn begun_before_uploaded(h: Seq<SessionEvent>) -> bool {
    forall|i: int|
        0 <= i < h.len() ==> ((#[trigger] h[i]) matches SessionEvent::PartUploaded(p)
            ==> exists|j: int| 0 <= j < i && h[j] == SessionEvent::PartBegun(p))
}

/// The state of one video's upload: the video and its user, the planned
/// segments in strictly ascending part order, how far the upload has
/// come, whether the current part's attempt has begun, the playlist id
/// once known, and the (ghost) history of what happened.
pub struct UploadSession {
    pub video: VideosModel,
    pub user: UsersModel,
    pub parts: Vec<(String, usize)>,
    pub next_part: usize,
    pub part_begun: bool,
    pub playlist_id: Option<String>,
    pub history: Ghost<Seq<SessionEvent>>,
}

impl UploadSession {
    /// The part numbers whose upload attempts should have begun: every
    /// finished part, plus the current one once its record is inserted.
    pub open spec fn begun_parts(self) -> Seq<usize> {
        self.parts@.take(
            self.next_part as int + if self.part_begun {
                1int
            } else {
                0int
            },
        ).map_values(|p: (String, usize)| p.1)
    }

    /// The session invariant: parts strictly ordered, progress within
    /// bounds, the history consistent with the progress (each part's
    /// record is inserted before its upload finishes), every part step
    /// preceded by the playlist, and a persisted playlist id kept as it
    /// was.
    pub open spec fn wf(self) -> bool {
        &&& self.next_part <= self.parts@.len()
        &&& strictly_sorted_by_part(self.parts@)
        &&& (self.part_begun ==> self.next_part < self.parts@.len())
        &&& uploads_of(self.history@) == self.parts@.take(self.next_part as int).map_values(
            |p: (String, usize)| p.1,
        )
        &&& begins_of(self.history@) == self.begun_parts()
        &&& (self.part_begun ==> exists|j: int|
            0 <= j < self.history@.len() && self.history@[j] == SessionEvent::PartBegun(
                self.parts@[self.next_part as int].1,
            ))
        &&& ordered_history(self.history@, self.video.youtube_playlist_id is Some)
        &&& begun_before_uploaded(self.history@)
        &&& (self.playlist_id is Some <==> (self.video.youtube_playlist_id is Some
            || playlist_created_in(self.history@)))
        &&& (self.video.youtube_playlist_id matches Some(p) ==> self.playlist_id == Some(p))
        &&& (self.next_part > 0 || self.part_begun ==> self.playlist_id is Some)
    }

    /// Opens a session over a video's validated, ordered segment
    /// listing. A playlist id persisted by an earlier run is adopted, so
    /// the session will not ask for the playlist to be created again.
    pub fn start(video: VideosModel, user: UsersModel, parts: Vec<(String, usize)>) -> (s:
        UploadSession)
        requires
            strictly_sorted_by_part(parts@),
        ensures
            s.wf(),
            s.video == video,
            s.user == user,
            s.parts == parts,
            s.next_part == 0,
            !s.part_begun,
            s.history@ == Seq::<SessionEvent>::empty(),
            s.playlist_id == video.youtube_playlist_id,
    {
        let playlist_id = clone_opt_string(&video.youtube_playlist_id);
        let s = UploadSession {
            video,
            user,
            parts,
            next_part: 0,
            part_begun: false,
            playlist_id,
            history: Ghost(Seq::empty()),
        };
        proof {
            assert(s.parts@.take(0).map_values(|p: (String, usize)| p.1) =~= Seq::<
                usize,
            >::empty());
            assert(s.wf());
        }
        s
    }

    /// True while the playlist must still be created before any part can
    /// be uploaded.
    pub fn needs_playlist(&self) -> (r: bool)
        ensures
            r == (self.playlist_id is None),
    {
        match &self.playlist_id {
            Option::Some(_) => false,
            Option::None => true,
        }
    }

    /// Records that the playlist now exists under the given id. Only a
    /// session that has uploaded nothing yet and has no playlist may
    /// take this step.
    pub fn playlist_created(&mut self, playlist_id: String)
        requires
            old(self).wf(),
            old(self).playlist_id is None,
            old(self).next_part == 0,
            !old(self).part_begun,
        ensures
            final(self).wf(),
            final(self).video == old(self).video,
            final(self).user == old(self).user,
            final(self).parts == old(self).parts,
            final(self).next_part == 0,
            !final(self).part_begun,
            final(self).playlist_id == Some(playlist_id),
            final(self).history@ == old(self).history@.push(SessionEvent::PlaylistCreated),
    {
        self.playlist_id = Option::Some(playlist_id);
        proof {
            self.history@ = self.history@.push(SessionEvent::PlaylistCreated);
            assert(self.history@.drop_last() =~= old(self).history@);
            assert(uploads_of(self.history@) == uploads_of(old(self).history@));
            assert(begins_of(self.history@) == begins_of(old(self).history@));
            assert(self.wf());
        }
    }

    /// The playlist id to attach parts to.
    pub fn playlist_id_ref(&self) -> (r: &String)
        requires
            self.playlist_id is Some,
        ensures
            Some(*r) == self.playlist_id,
    {
        match &self.playlist_id {
            Option::Some(p) => p,
            Option::None => unreached(),
        }
    }

    /// True once every planned part has been uploaded.
    pub fn is_finished(&self) -> (r: bool)
        ensures
            r == (self.next_part == self.parts@.len()),
    {
        self.next_part == self.parts.len()
    }

    /// The next segment to upload: its filename and part number.
    pub fn current_part(&self) -> (r: (String, usize))
        requires
            self.next_part < self.parts@.len(),
        ensures
            r == self.parts@[self.next_part as int],
    {
        let p = &self.parts[self.next_part];
        (p.0.clone(), p.1)
    }

    /// Records that the next part's upload attempt begins, and hands
    /// back the fresh store record to insert. This is the first step of
    /// a part: it needs the playlist and must precede `part_uploaded`.
    pub fn begin_part(&mut self) -> (rec: VideoUploadModel)
        requires
            old(self).wf(),
            old(self).playlist_id is Some,
            !old(self).part_begun,
            old(self).next_part < old(self).parts@.len(),
        ensures
            final(self).wf(),
            final(self).video == old(self).video,
            final(self).user == old(self).user,
            final(self).parts == old(self).parts,
            final(self).playlist_id == old(self).playlist_id,
            final(self).next_part == old(self).next_part,
            final(self).part_begun,
            final(self).history@ == old(self).history@.push(
                SessionEvent::PartBegun(old(self).parts@[old(self).next_part as int].1),
            ),
            rec == (VideoUploadModel {
                video_id: old(self).video.id,
                part: old(self).parts@[old(self).next_part as int].1 as i32,
                upload_status: UploadStatus::Uploading,
                youtube_video_id: None,
            }),
    {
        let p: usize = self.parts[self.next_part].1;
        self.part_begun = true;
        proof {
            self.history@ = self.history@.push(
                SessionEvent::PartBegun(self.parts@[self.next_part as int].1),
            );
        }
        let rec = VideoUploadModel::new_uploading(self.video.id, p as i32);
        proof {
            assert(self.history@.drop_last() =~= old(self).history@);
            assert(uploads_of(self.history@) == uploads_of(old(self).history@));
            assert(begins_of(self.history@) == begins_of(old(self).history@).push(p));
            assert(self.parts@.take(self.next_part as int + 1).map_values(
                |q: (String, usize)| q.1,
            ) =~= old(self).parts@.take(old(self).next_part as int).map_values(
                |q: (String, usize)| q.1,
            ).push(p));
            assert(self.wf());
        }
        rec
    }

    /// Records that the current part finished uploading under the given
    /// remote id, and hands back the finished store record. Only a part
    /// whose attempt has begun — whose record is inserted — may finish.
    pub fn part_uploaded(&mut self, remote_video_id: String) -> (rec: VideoUploadModel)
        requires
            old(self).wf(),
            old(self).part_begun,
        ensures
            final(self).wf(),
            final(self).video == old(self).video,
            final(self).user == old(self).user,
            final(self).parts == old(self).parts,
            final(self).playlist_id == old(self).playlist_id,
            final(self).next_part == old(self).next_part + 1,
            !final(self).part_begun,
            final(self).history@ == old(self).history@.push(
                SessionEvent::PartUploaded(old(self).parts@[old(self).next_part as int].1),
            ),
            rec == (VideoUploadModel {
                video_id: old(self).video.id,
                part: old(self).parts@[old(self).next_part as int].1 as i32,
                upload_status: UploadStatus::Uploaded,
                youtube_video_id: Some(remote_video_id),
            }),
    {
        let _n: usize = self.parts.len();
        let p: usize = self.parts[self.next_part].1;
        let rec = VideoUploadModel {
            video_id: self.video.id,
            part: self.parts[self.next_part].1 as i32,
            upload_status: UploadStatus::Uploaded,
            youtube_video_id: Option::Some(remote_video_id),
        };
        proof {
            self.history@ = self.history@.push(
                SessionEvent::PartUploaded(self.parts@[self.next_part as int].1),
            );
        }
        self.part_begun = false;
        self.next_part = self.next_part + 1;
        proof {
            assert(self.history@.drop_last() =~= old(self).history@);
            assert(uploads_of(self.history@) == uploads_of(old(self).history@).push(p));
            assert(begins_of(self.history@) == begins_of(old(self).history@));
            assert(self.parts@.take(self.next_part as int).map_values(|q: (String, usize)| q.1)
                =~= old(self).parts@.take(old(self).next_part as int).map_values(
                |q: (String, usize)| q.1,
            ).push(p));
            assert(self.begun_parts() =~= old(self).begun_parts());
            assert(self.wf());
        }
        rec
    }

    /// The video status the store should hold for the session's current
    /// progress: `Uploading` before the first part, `PartiallyUploaded`
    /// while parts remain, `Uploaded` once all are done.
    pub fn video_status(&self) -> (st: Status)
        ensures
            st == (if self.next_part == self.parts@.len() {
                Status::Uploaded
            } else if self.next_part > 0 {
                Status::PartiallyUploaded
            } else {
                Status::Uploading
            }),
    {
        if self.next_part == self.parts.len() {
            Status::Uploaded
        } else if self.next_part > 0 {
            Status::PartiallyUploaded
        } else {
            Status::Uploading
        }
    }
}

/// The number of segments a run still expects on disk: the declared
/// total minus the parts already recorded uploaded (whose files the
/// earlier run deleted).
pub open spec fn remaining_parts(part_count: i32, uploaded_count: int) -> int {
    let total = (part_count as usize) as int;
    if uploaded_count <= total {
        total - uploaded_count
    } else {
        0
    }
}

/// Plans one video's upload: validates the segment listing against the
/// declared part count minus the `uploaded_count` parts the store
/// already records as uploaded, renders the shared payload, and opens
/// the session. A resumed directory — earlier parts uploaded and their
/// files deleted — therefore plans exactly the remaining segments.
/// Fails, without any session, exactly when the listing is invalid or
/// the video's timestamp or user's timezone does not parse.
pub fn plan_upload(
    video: VideosModel,
    user: UsersModel,
    file_names: Vec<Option<String>>,
    uploaded_count: usize,
    configured_description: &str,
) -> (r: Result<(UploadSession, VideoData), UploaderError>)
    ensures
        r is Ok <==> (all_parse(file_names@) && file_names@.len() == remaining_parts(
            video.part_count,
            uploaded_count as int,
        ) && distinct_ordinals(parsed_parts(file_names@)) && dates_parse(video, user)),
        r matches Ok(p) ==> {
            &&& p.0.wf()
            &&& p.0.video == video
            &&& p.0.user == user
            &&& p.0.next_part == 0
            &&& !p.0.part_begun
            &&& p.0.history@ == Seq::<SessionEvent>::empty()
            &&& p.0.playlist_id == video.youtube_playlist_id
            &&& p.0.parts@.to_multiset() == parsed_parts(file_names@).to_multiset()
            &&& strictly_sorted_by_part(p.0.parts@)
            &&& p.0.parts@.len() == file_names@.len()
        },
        !all_parse(file_names@) ==> (r matches Err(e) && e == entry_error(
            file_names@[first_bad_from(file_names@, 0)],
        )),
        all_parse(file_names@) && file_names@.len() != remaining_parts(
            video.part_count,
            uploaded_count as int,
        ) ==> (r matches Err(e) && e == UploaderError::PartCountMismatch(
            remaining_parts(video.part_count, uploaded_count as int) as usize,
            file_names@.len() as usize,
        )),
        all_parse(file_names@) && file_names@.len() == remaining_parts(
            video.part_count,
            uploaded_count as int,
        ) && !distinct_ordinals(parsed_parts(file_names@)) ==> (r matches Err(e) && e
            == UploaderError::PartCountMismatch(
            remaining_parts(video.part_count, uploaded_count as int) as usize,
            distinct_ordinal_count(parsed_parts(file_names@)) as usize,
        )),
        all_parse(file_names@) && file_names@.len() == remaining_parts(
            video.part_count,
            uploaded_count as int,
        ) && distinct_ordinals(parsed_parts(file_names@)) && !dates_parse(video, user) ==> (
        r matches Err(e) && e == UploaderError::ParseDate),
{
    let total: usize = video.part_count as usize;
    let remaining: usize = if uploaded_count <= total {
        total - uploaded_count
    } else {
        0
    };
    let parts = get_part_files(file_names, remaining)?;
    let data = build_video_data(&video, &user, configured_description)?;
    Ok((UploadSession::start(video, user, parts), data))
}

/// A run's batch: the eligible videos in order, and how far the run has
/// come. One video's failure never stops the batch; the runner simply
/// moves to the next video.
pub struct BatchRunner {
    pub videos: Vec<VideosModel>,
    pub idx: usize,
}

/// The videos a run takes on: those with status `Split`, in the order
/// the store handed them over (it orders by creation time ascending),
/// capped at the configured batch size.
pub open spec fn eligible_videos(videos: Seq<VideosModel>, max: int) -> Seq<VideosModel>
    decreases videos.len(),
{
    if videos.len() == 0 || max <= 0 {
        Seq::empty()
    } else if videos[0].status is Split {
        seq![videos[0]] + eligible_videos(videos.drop_first(), max - 1)
    } else {
        eligible_videos(videos.drop_first(), max)
    }
}

impl BatchRunner {
    /// Selects the batch: the first `max` videos with status `Split`,
    /// keeping the store's creation-time order.
    pub fn plan_batch(videos: Vec<VideosModel>, max: u64) -> (b: BatchRunner)
        ensures
            b.idx == 0,
            b.videos@ == eligible_videos(videos@, max as int),
    {
        let ghost all = videos@;
        let mut out: Vec<VideosModel> = Vec::new();
        let mut i: usize = 0;
        let mut left: u64 = max;
        proof {
            assert(all.skip(0) =~= all);
        }
        while i < videos.len() && left > 0
            invariant
                i <= all.len(),
                videos@ == all,
                left <= max,
                eligible_videos(all, max as int) == out@ + eligible_videos(
                    all.skip(i as int),
                    left as int,
                ),
            decreases all.len() - i,
        {
            let ghost suf = all.skip(i as int);
            proof {
                assert(suf.drop_first() =~= all.skip(i + 1));
            }
            let v = &videos[i];
            match v.status {
                Status::Split => {
                    out.push(v.clone_fields());
                    left = left - 1;
                    proof {
                        assert(eligible_videos(all, max as int) =~= out@ + eligible_videos(
                            all.skip(i + 1),
                            left as int,
                        ));
                    }
                },
                _ => {
                    proof {
                        assert(eligible_videos(suf, left as int) == eligible_videos(
                            all.skip(i + 1),
                            left as int,
                        ));
                    }
                },
            }
            i = i + 1;
        }
        proof {
            if i < all.len() {
                assert(left == 0);
                assert(eligible_videos(all.skip(i as int), 0) =~= Seq::<VideosModel>::empty());
            } else {
                assert(all.skip(i as int).len() == 0);
            }
            assert(out@ + Seq::<VideosModel>::empty() =~= out@);
        }
        BatchRunner { videos: out, idx: 0 }
    }

    /// True once every video of the batch has been taken on.
    pub fn is_done(&self) -> (r: bool)
        ensures
            r == (self.idx >= self.videos@.len()),
    {
        self.idx >= self.videos.len()
    }

    /// The video the run is working on.
    pub fn current(&self) -> (r: VideosModel)
        requires
            self.idx < self.videos@.len(),
        ensures
            r == self.videos@[self.idx as int],
    {
        self.videos[self.idx].clone_fields()
    }

    /// Moves to the next video, after the current one succeeded or
    /// failed alike: a failed video never stops the batch.
    pub fn advance(&mut self)
        requires
            old(self).idx < old(self).videos@.len(),
        ensures
            final(self).videos == old(self).videos,
            final(self).idx == old(self).idx + 1,
    {
        let _n: usize = self.videos.len();
        self.idx = self.idx + 1;
    }
}

/// Lexicographic order on texts; the store's ordering of the
/// creation-timestamp column.
pub open spec fn lex_le(a: Seq<char>, b: Seq<char>) -> bool
    decreases a.len(),
{
    if a.len() == 0 {
        true
    } else if b.len() == 0 {
        false
    } else if a[0] != b[0] {
        a[0] < b[0]
    } else {
        lex_le(a.drop_first(), b.drop_first())
    }
}

/// The videos stand in creation-time order.
pub open spec fn ordered_by_created(videos: Seq<VideosModel>) -> bool {
    forall|i: int, j: int|
        0 <= i < j < videos.len() ==> lex_le(videos[i].created_at@, videos[j].created_at@)
}

/// Every selected video is one of the offered ones.
proof fn lemma_eligible_membership(videos: Seq<VideosModel>, max: int, m: int)
    requires
        0 <= m < eligible_videos(videos, max).len(),
    ensures
        exists|k: int| 0 <= k < videos.len() && videos[k] == eligible_videos(videos, max)[m],
    decreases videos.len(),
{
    if videos.len() == 0 || max <= 0 {
    } else if videos[0].status is Split {
        if m == 0 {
            assert(videos[0] == eligible_videos(videos, max)[0]);
        } else {
            lemma_eligible_membership(videos.drop_first(), max - 1, m - 1);
            let e = eligible_videos(videos, max)[m];
            assert(e == eligible_videos(videos.drop_first(), max - 1)[m - 1]);
            let k = choose|k: int|
                0 <= k < videos.drop_first().len() && videos.drop_first()[k] == e;
            assert(videos[k + 1] == e);
        }
    } else {
        lemma_eligible_membership(videos.drop_first(), max, m);
        let e = eligible_videos(videos, max)[m];
        let k = choose|k: int| 0 <= k < videos.drop_first().len() && videos.drop_first()[k] == e;
        assert(videos[k + 1] == e);
    }
}

/// Batch selection keeps the store's order: a listing in creation-time
/// order selects to a batch in creation-time order.
pub proof fn lemma_batch_keeps_creation_order(videos: Seq<VideosModel>, max: int)
    requires
        ordered_by_created(videos),
    ensures
        ordered_by_created(eligible_videos(videos, max)),
    decreases videos.len(),
{
    if videos.len() == 0 || max <= 0 {
    } else {
        let rest = videos.drop_first();
        assert(ordered_by_created(rest)) by {
            assert forall|i: int, j: int| 0 <= i < j < rest.len() implies lex_le(
                rest[i].created_at@,
                rest[j].created_at@,
            ) by {
                assert(rest[i] == videos[i + 1]);
                assert(rest[j] == videos[j + 1]);
            }
        }
        if videos[0].status is Split {
            lemma_batch_keeps_creation_order(rest, max - 1);
            let e = eligible_videos(videos, max);
            let e1 = eligible_videos(rest, max - 1);
            assert forall|i: int, j: int| 0 <= i < j < e.len() implies lex_le(
                e[i].created_at@,
                e[j].created_at@,
            ) by {
                if i == 0 {
                    assert(e[j] == e1[j - 1]);
                    lemma_eligible_membership(rest, max - 1, j - 1);
                    let k = choose|k: int| 0 <= k < rest.len() && rest[k] == e1[j - 1];
                    assert(rest[k] == videos[k + 1]);
                    assert(lex_le(videos[0].created_at@, videos[k + 1].created_at@));
                } else {
                    assert(e[i] == e1[i - 1]);
                    assert(e[j] == e1[j - 1]);
                }
            }
        } else {
            lemma_batch_keeps_creation_order(rest, max);
        }
    }
}

/// Ordering: in any well-formed session, every part step — inserting
/// the part's record or finishing its upload — was preceded by the
/// playlist (persisted before the run or created earlier in this one);
/// every finished part's record was inserted earlier in the history;
/// and both the begun and the uploaded part numbers come in strictly
/// ascending order.
pub proof fn lemma_upload_ordering(s: UploadSession)
    requires
        s.wf(),
    ensures
        forall|i: int|
            0 <= i < s.history@.len() && (s.history@[i] is PartBegun
                || s.history@[i] is PartUploaded) ==> (s.video.youtube_playlist_id is Some
                || exists|j: int| 0 <= j < i && s.history@[j] is PlaylistCreated),
        forall|i: int|
            0 <= i < s.history@.len() ==> ((#[trigger] s.history@[i])
                matches SessionEvent::PartUploaded(p) ==> exists|j: int|
                0 <= j < i && s.history@[j] == SessionEvent::PartBegun(p)),
        forall|i: int, j: int|
            0 <= i < j < uploads_of(s.history@).len() ==> uploads_of(s.history@)[i] < uploads_of(
                s.history@,
            )[j],
        forall|i: int, j: int|
            0 <= i < j < begins_of(s.history@).len() ==> begins_of(s.history@)[i] < begins_of(
                s.history@,
            )[j],
{
    let ups = uploads_of(s.history@);
    let taken = s.parts@.take(s.next_part as int);
    assert(ups == taken.map_values(|p: (String, usize)| p.1));
    assert forall|i: int, j: int| 0 <= i < j < ups.len() implies ups[i] < ups[j] by {
        assert(ups[i] == taken[i].1);
        assert(ups[j] == taken[j].1);
        assert(taken[i] == s.parts@[i]);
        assert(taken[j] == s.parts@[j]);
    }
    let begs = begins_of(s.history@);
    let taken_b = s.parts@.take(
        s.next_part as int + if s.part_begun {
            1int
        } else {
            0int
        },
    );
    assert(begs == taken_b.map_values(|p: (String, usize)| p.1));
    assert forall|i: int, j: int| 0 <= i < j < begs.len() implies begs[i] < begs[j] by {
        assert(begs[i] == taken_b[i].1);
        assert(begs[j] == taken_b[j].1);
        assert(taken_b[i] == s.parts@[i]);
        assert(taken_b[j] == s.parts@[j]);
    }
}

/// Idempotent resume: a session over a video whose playlist id is
/// already persisted keeps that id — `needs_playlist` is false for its
/// whole life, so playlist creation is never re-invoked — and only the
/// planned (still on-disk) segments are ever recorded as uploaded;
/// finishing them reaches exactly the planned set.
pub proof fn lemma_idempotent_resume(s: UploadSession)
    requires
        s.wf(),
        s.video.youtube_playlist_id is Some,
    ensures
        s.playlist_id == s.video.youtube_playlist_id,
        uploads_of(s.history@) == s.parts@.take(s.next_part as int).map_values(
            |p: (String, usize)| p.1,
        ),
        s.next_part == s.parts@.len() ==> uploads_of(s.history@) == s.parts@.map_values(
            |p: (String, usize)| p.1,
        ),
{
    if s.next_part == s.parts@.len() {
        assert(s.parts@.take(s.next_part as int) =~= s.parts@);
    }
}

} // verus!
