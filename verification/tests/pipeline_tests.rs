use twba_uploader::data::PrivacyStatus;
use twba_uploader::errors::UploaderError;
use twba_uploader::models::{Status, UploadStatus, UsersModel, VideosModel};
use twba_uploader::registry::ClientRegistry;
use twba_uploader::session::{plan_upload, BatchRunner};

fn sample_video(id: i32, part_count: i32) -> VideosModel {
    VideosModel {
        id,
        user_id: 7,
        name: format!("stream {}", id),
        created_at: "2023-10-09T05:33:59+00:00".to_string(),
        status: Status::Split,
        part_count,
        twitch_id: "chan".to_string(),
        twitch_preview_image_url: None,
        twitch_download_url: Some("https://example.test/vod".to_string()),
        duration: 0,
        youtube_id: None,
        youtube_playlist_name: String::new(),
        youtube_preview_image_url: None,
        youtube_playlist_id: None,
        youtube_playlist_created_at: None,
        fail_count: 0,
        fail_reason: None,
    }
}

fn sample_user() -> UsersModel {
    UsersModel {
        id: 7,
        twitch_id: "chan".to_string(),
        twitch_name: "Chan".to_string(),
        twitch_profile_image_url: None,
        youtube_id: "y".to_string(),
        youtube_name: "Chan".to_string(),
        youtube_profile_image_url: None,
        youtube_target_duration: 0,
        youtube_max_duration: 0,
        active: true,
        timezone: "+00:00".to_string(),
    }
}

fn names(parts: &[&str]) -> Vec<Option<String>> {
    parts.iter().map(|p| Some(p.to_string())).collect()
}

#[test]
fn plan_upload_builds_session_and_payload() {
    let video = sample_video(3, 2);
    let (session, data) = plan_upload(
        video,
        sample_user(),
        names(&["1.mp4", "0.mp4"]),
        0,
        "",
    )
    .unwrap();
    assert_eq!(
        vec![("0.mp4".to_string(), 1), ("1.mp4".to_string(), 2)],
        session.parts
    );
    assert!(session.needs_playlist());
    assert_eq!(0, session.next_part);
    assert_eq!(22, data.video_category);
    assert!(matches!(data.video_privacy, PrivacyStatus::Private));
    assert!(matches!(data.playlist_privacy, PrivacyStatus::Private));
    assert!(data.video_tags.is_empty());
    assert_eq!("[2023-10-09] stream 3", data.playlist_title);
}

#[test]
fn plan_upload_rejects_count_mismatch_before_any_upload() {
    let video = sample_video(3, 4);
    let r = plan_upload(video, sample_user(), names(&["0.mp4", "1.mp4", "2.mp4"]), 0, "");
    assert!(matches!(r, Err(UploaderError::PartCountMismatch(4, 3))));
}

#[test]
fn plan_upload_rejects_repeated_ordinals() {
    // Two names carry the same part ordinal; the listing does not name
    // a set of two parts.
    let video = sample_video(3, 2);
    let r = plan_upload(video, sample_user(), names(&["1.mp4", "+1.mp4"]), 0, "");
    assert!(matches!(r, Err(UploaderError::PartCountMismatch(2, 1))));
}

#[test]
fn session_walks_parts_in_order() {
    let video = sample_video(3, 2);
    let (mut session, data) = plan_upload(
        video,
        sample_user(),
        names(&["1.mp4", "0.mp4"]),
        0,
        "",
    )
    .unwrap();
    assert!(matches!(session.video_status(), Status::Uploading));
    session.playlist_created("PL1".to_string());
    assert_eq!("PL1", session.playlist_id_ref());

    let (file, part) = session.current_part();
    assert_eq!(("0.mp4".to_string(), 1), (file, part));
    let rec = session.begin_part();
    assert_eq!(3, rec.video_id);
    assert_eq!(1, rec.part);
    assert!(matches!(rec.upload_status, UploadStatus::Uploading));
    let payload = data.for_part(&session.video, &session.user, part, "").unwrap();
    assert_eq!("[2023-10-09][1/2] stream 3", payload.video_title);
    let done = session.part_uploaded("yt1".to_string());
    assert!(matches!(done.upload_status, UploadStatus::Uploaded));
    assert_eq!(Some("yt1".to_string()), done.youtube_video_id);
    assert!(matches!(session.video_status(), Status::PartiallyUploaded));

    let (_, part2) = session.current_part();
    assert_eq!(2, part2);
    let rec2 = session.begin_part();
    assert_eq!(2, rec2.part);
    session.part_uploaded("yt2".to_string());
    assert!(session.is_finished());
    assert!(matches!(session.video_status(), Status::Uploaded));
}

#[test]
fn session_resumes_without_recreating_playlist() {
    // Two of four parts are already uploaded and their files deleted:
    // planning against the declared count minus the two recorded parts
    // accepts the remaining files, the persisted playlist id is
    // adopted, and the run finishes at Uploaded.
    let mut video = sample_video(3, 4);
    video.youtube_playlist_id = Some("PLX".to_string());
    video.status = Status::PartiallyUploaded;
    let (mut session, _data) = plan_upload(
        video,
        sample_user(),
        names(&["3.mp4", "2.mp4"]),
        2,
        "",
    )
    .unwrap();
    assert!(!session.needs_playlist());
    assert_eq!("PLX", session.playlist_id_ref());
    let (_, p1) = session.current_part();
    assert_eq!(3, p1);
    session.begin_part();
    session.part_uploaded("yt3".to_string());
    let (_, p2) = session.current_part();
    assert_eq!(4, p2);
    session.begin_part();
    session.part_uploaded("yt4".to_string());
    assert!(session.is_finished());
    assert!(matches!(session.video_status(), Status::Uploaded));
}

#[test]
fn batch_selects_split_videos_up_to_cap() {
    let mut uploaded = sample_video(1, 2);
    uploaded.status = Status::Uploaded;
    let videos = vec![
        uploaded,
        sample_video(2, 2),
        sample_video(3, 2),
        sample_video(4, 2),
    ];
    let batch = BatchRunner::plan_batch(videos, 2);
    assert_eq!(2, batch.videos.len());
    assert_eq!(2, batch.videos[0].id);
    assert_eq!(3, batch.videos[1].id);
}

#[test]
fn batch_failure_does_not_stop_next_video() {
    // Video A fails at its second of four segments; video B is still
    // attempted and reaches Uploaded.
    let a = sample_video(1, 4);
    let b = sample_video(2, 2);
    let mut batch = BatchRunner::plan_batch(vec![a, b], 10);

    let video_a = batch.current();
    let (mut session_a, _data_a) = plan_upload(
        video_a,
        sample_user(),
        names(&["0.mp4", "1.mp4", "2.mp4", "3.mp4"]),
        0,
        "",
    )
    .unwrap();
    session_a.playlist_created("PLA".to_string());
    session_a.begin_part();
    session_a.part_uploaded("yta1".to_string());
    session_a.begin_part();
    // The platform fails the second segment; the video records the
    // failure and the batch moves on.
    let failed = session_a
        .video
        .with_failure(&UploaderError::NoIdReturned.message());
    assert_eq!(1, failed.fail_count);
    batch.advance();

    assert!(!batch.is_done());
    let video_b = batch.current();
    assert_eq!(2, video_b.id);
    let (mut session_b, _data_b) = plan_upload(
        video_b,
        sample_user(),
        names(&["0.mp4", "1.mp4"]),
        0,
        "",
    )
    .unwrap();
    session_b.playlist_created("PLB".to_string());
    session_b.begin_part();
    session_b.part_uploaded("ytb1".to_string());
    session_b.begin_part();
    session_b.part_uploaded("ytb2".to_string());
    assert!(session_b.is_finished());
    assert!(matches!(session_b.video_status(), Status::Uploaded));
    batch.advance();
    assert!(batch.is_done());
}

#[test]
fn registry_maps_users_and_falls_back() {
    let reg = ClientRegistry::build(&vec![5, 7]);
    let mut video = sample_video(1, 1);
    video.user_id = 7;
    assert_eq!(Ok(1), reg.get_client_for_video(&video).map_err(|_| ()));
    video.user_id = 5;
    assert_eq!(Ok(0), reg.get_client_for_video(&video).map_err(|_| ()));
    video.user_id = 9;
    assert!(matches!(
        reg.get_client_for_video(&video),
        Err(UploaderError::NoClient(9))
    ));

    let empty = ClientRegistry::build(&vec![]);
    assert_eq!(1, empty.entries.len());
    assert_eq!("unknown", empty.entries[0].0);
    video.user_id = 3;
    assert!(matches!(
        empty.get_client_for_video(&video),
        Err(UploaderError::NoClient(3))
    ));
}
