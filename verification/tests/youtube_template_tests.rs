use twba_uploader::data::{create_youtube_title, Location};
use twba_uploader::models::{Status, UsersModel, VideosModel};
use twba_uploader::text::shorten_string_if_needed;

fn get_test_sample_data() -> (VideosModel, UsersModel) {
    let x = VideosModel {
        part_count: 4,
        name: "wow".to_string(),
        created_at: "2023-10-09T19:33:59+00:00".to_string(),
        id: 3,
        status: Status::Uploading,
        user_id: 0,
        twitch_id: String::new(),
        twitch_preview_image_url: None,
        twitch_download_url: None,
        duration: 0,
        youtube_id: None,
        youtube_playlist_name: String::new(),
        youtube_preview_image_url: None,
        youtube_playlist_id: None,
        youtube_playlist_created_at: None,
        fail_count: 0,
        fail_reason: None,
    };
    let user = UsersModel {
        id: 0,
        twitch_id: "".to_string(),
        twitch_name: "".to_string(),
        twitch_profile_image_url: None,
        youtube_id: "".to_string(),
        youtube_name: "".to_string(),
        youtube_profile_image_url: None,
        youtube_target_duration: 0,
        youtube_max_duration: 0,
        active: false,
        timezone: "+00:00".to_string(),
    };
    (x, user)
}

#[test]
fn data_test_shorten_string() {
    let test = shorten_string_if_needed("123456789", Some(50));
    assert_eq!("123456789", test);
    let test = shorten_string_if_needed("123456789", Some(5));
    assert_eq!("12...", test);
    let test = shorten_string_if_needed("123456789", Some(3));
    assert_eq!("...", test);
    let test = shorten_string_if_needed("123456789", Some(2));
    assert_eq!("..", test);
    let test = shorten_string_if_needed("123456789", Some(0));
    assert_eq!("", test);
    let test = shorten_string_if_needed("123456789", None);
    assert_eq!("123456789", test);
}

#[test]
fn data_test_create_youtube_title_playlist() {
    let (x, user) = get_test_sample_data();
    let playlist = create_youtube_title(&x, &user, Location::Playlist).unwrap();
    assert_eq!("[2023-10-09] wow", playlist);
}

#[test]
fn data_test_create_youtube_title_video_1() {
    let (x, user) = get_test_sample_data();
    let video = create_youtube_title(&x, &user, Location::Video(1)).unwrap();
    assert_eq!("[2023-10-09][1/4] wow", video);
}

#[test]
fn data_test_create_youtube_title_video_2() {
    let (x, user) = get_test_sample_data();
    let video = create_youtube_title(&x, &user, Location::Video(2)).unwrap();
    assert_eq!("[2023-10-09][2/4] wow", video);
}

#[test]
fn data_test_create_youtube_title_video_3() {
    let (x, user) = get_test_sample_data();
    let video = create_youtube_title(&x, &user, Location::Video(3)).unwrap();
    assert_eq!("[2023-10-09][3/4] wow", video);
}

#[test]
fn data_test_create_youtube_title_video_4() {
    let (x, user) = get_test_sample_data();
    let video = create_youtube_title(&x, &user, Location::Video(4)).unwrap();
    assert_eq!("[2023-10-09][4/4] wow", video);
}

#[test]
fn data_test_create_youtube_title_video_multi_digit_part_count() {
    let (mut x, user) = get_test_sample_data();

    x.part_count = 14;
    let video = create_youtube_title(&x, &user, Location::Video(2)).unwrap();
    assert_eq!("[2023-10-09][02/14] wow", video);
}
