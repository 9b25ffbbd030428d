use twba_uploader::data::{create_youtube_description, create_youtube_title, Location};
use twba_uploader::models::{Status, UsersModel, VideosModel};
use twba_uploader::text::shorten_string_if_needed;

fn get_test_sample_data() -> (VideosModel, UsersModel) {
    let x = VideosModel {
        part_count: 4,
        name: "wow".to_string(),
        created_at: "2023-10-09T05:33:59+00:00".to_string(),
        id: 3,
        status: Status::Uploading,
        user_id: 0,
        twitch_id: String::new(),
        twitch_preview_image_url: None,
        twitch_download_url: None,
        duration: 0,
        youtube_id: None,
        youtube_playlist_name: String::new(),
        youtube_preview_image_url: None,
        youtube_playlist_id: None,
        youtube_playlist_created_at: None,
        fail_count: 0,
        fail_reason: None,
    };
    let user = UsersModel {
        id: 0,
        twitch_id: "".to_string(),
        twitch_name: "".to_string(),
        twitch_profile_image_url: None,
        youtube_id: "".to_string(),
        youtube_name: "".to_string(),
        youtube_profile_image_url: None,
        youtube_target_duration: 0,
        youtube_max_duration: 0,
        active: false,
        timezone: "+00:00".to_string(),
    };
    (x, user)
}

#[test]
fn test_shorten_string() {
    let test = shorten_string_if_needed("123456789", Some(50));
    assert_eq!("123456789", test);
    let test = shorten_string_if_needed("123456789", Some(5));
    assert_eq!("12...", test);
    let test = shorten_string_if_needed("123456789", Some(3));
    assert_eq!("...", test);
    let test = shorten_string_if_needed("123456789", Some(2));
    assert_eq!("..", test);
    let test = shorten_string_if_needed("123456789", Some(0));
    assert_eq!("", test);
    let test = shorten_string_if_needed("123456789", None);
    assert_eq!("123456789", test);
}

#[test]
fn test_create_youtube_title_playlist() {
    let (x, user) = get_test_sample_data();
    let playlist = create_youtube_title(&x, &user, Location::Playlist).unwrap();
    assert_eq!("[2023-10-09] wow", playlist);
}

#[test]
fn test_create_youtube_title_playlist_with_timezone() {
    let (x, mut user) = get_test_sample_data();
    user.timezone = "-07:00".to_string(); //streamers timezone is -07:00 (PDT)
    let playlist = create_youtube_title(&x, &user, Location::Playlist).unwrap();
    assert_eq!("[2023-10-08] wow", playlist);
}

#[test]
fn test_create_youtube_title_video_1() {
    let (x, user) = get_test_sample_data();
    let video = create_youtube_title(&x, &user, Location::Video(1)).unwrap();
    assert_eq!("[2023-10-09][1/4] wow", video);
}

#[test]
fn test_create_youtube_title_video_2() {
    let (x, user) = get_test_sample_data();
    let video = create_youtube_title(&x, &user, Location::Video(2)).unwrap();
    assert_eq!("[2023-10-09][2/4] wow", video);
}

#[test]
fn test_create_youtube_title_video_3() {
    let (x, user) = get_test_sample_data();
    let video = create_youtube_title(&x, &user, Location::Video(3)).unwrap();
    assert_eq!("[2023-10-09][3/4] wow", video);
}

#[test]
fn test_create_youtube_title_video_4() {
    let (x, user) = get_test_sample_data();
    let video = create_youtube_title(&x, &user, Location::Video(4)).unwrap();
    assert_eq!("[2023-10-09][4/4] wow", video);
}

#[test]
fn test_create_youtube_title_video_multi_digit_part_count() {
    let (mut x, user) = get_test_sample_data();

    x.part_count = 14;
    let video = create_youtube_title(&x, &user, Location::Video(2)).unwrap();
    assert_eq!("[2023-10-09][02/14] wow", video);
}

#[test]
fn test_create_youtube_title_single_part_has_no_indicator() {
    let (mut x, user) = get_test_sample_data();
    x.part_count = 1;
    let video = create_youtube_title(&x, &user, Location::Video(1)).unwrap();
    assert_eq!("[2023-10-09] wow", video);
}

#[test]
fn test_create_youtube_title_truncated_to_limit() {
    let (mut x, user) = get_test_sample_data();
    x.name = "a".repeat(150);
    let video = create_youtube_title(&x, &user, Location::Video(1)).unwrap();
    let full = format!("[2023-10-09][1/4] {}", x.name);
    let expected = format!("{}...", &full[..97]);
    assert_eq!(100, video.len());
    assert_eq!(expected, video);
}

#[test]
fn test_create_youtube_description_default_template() {
    let (x, user) = get_test_sample_data();
    let description = create_youtube_description(&x, &user, Location::Playlist, "").unwrap();
    assert_eq!(
        "default description for video: wow from 2023-10-09 05:33:59 +00:00\n\nOriginal stream here: \n\n\nWatch  live at: https://twitch.tv/",
        description
    );
}

#[test]
fn test_create_youtube_description_configured_template() {
    let (x, user) = get_test_sample_data();
    let description =
        create_youtube_description(&x, &user, Location::Playlist, "only $$original_title$$")
            .unwrap();
    assert_eq!("only wow", description);
}

#[test]
fn test_create_youtube_title_bad_timezone() {
    let (x, mut user) = get_test_sample_data();
    user.timezone = "somewhere/else".to_string();
    let err = create_youtube_title(&x, &user, Location::Playlist);
    assert!(matches!(
        err,
        Err(twba_uploader::errors::UploaderError::ParseDate)
    ));
}

#[test]
fn test_create_youtube_title_bad_created_at() {
    let (mut x, user) = get_test_sample_data();
    x.created_at = "yesterday".to_string();
    let err = create_youtube_title(&x, &user, Location::Playlist);
    assert!(matches!(
        err,
        Err(twba_uploader::errors::UploaderError::ParseDate)
    ));
}
