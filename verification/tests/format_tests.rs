use twba_uploader::data::{format_progress, get_description_template, get_title_template,
    substitute_part_ident, Location, Templates};
use twba_uploader::errors::UploaderError;
use twba_uploader::models::{Status, VideosModel};

#[test]
fn progress_single_digit_total() {
    assert_eq!("[1/4]", format_progress(4, 1));
    assert_eq!("[4/4]", format_progress(4, 4));
}

#[test]
fn progress_two_digit_total_pads_current() {
    assert_eq!("[02/14]", format_progress(14, 2));
    assert_eq!("[14/14]", format_progress(14, 14));
}

#[test]
fn part_ident_empty_for_single_part() {
    assert_eq!("a b", substitute_part_ident("a$$part_ident$$ b", 1, 1));
}

#[test]
fn part_ident_progress_for_multi_part() {
    assert_eq!("a[2/3] b", substitute_part_ident("a$$part_ident$$ b", 2, 3));
}

#[test]
fn title_template_is_builtin() {
    let t = Templates::default();
    assert_eq!(t.video_title, get_title_template(Location::Video(1)));
    assert_eq!(t.playlist_title, get_title_template(Location::Playlist));
    assert_eq!(
        "[$$upload_date_short$$]$$part_ident$$ $$original_title$$",
        get_title_template(Location::Video(1))
    );
}

#[test]
fn description_template_prefers_configured() {
    let t = Templates::default();
    assert_eq!(
        t.video_description,
        get_description_template(Location::Video(1), "")
    );
    assert_eq!(
        "custom $$original_title$$",
        get_description_template(Location::Playlist, "custom $$original_title$$")
    );
}

#[test]
fn failure_log_prepends_new_line() {
    let video = VideosModel {
        id: 1,
        user_id: 1,
        name: "n".to_string(),
        created_at: "2023-10-09T05:33:59+00:00".to_string(),
        status: Status::Split,
        part_count: 1,
        twitch_id: String::new(),
        twitch_preview_image_url: None,
        twitch_download_url: None,
        duration: 0,
        youtube_id: None,
        youtube_playlist_name: String::new(),
        youtube_preview_image_url: None,
        youtube_playlist_id: None,
        youtube_playlist_created_at: None,
        fail_count: 0,
        fail_reason: None,
    };
    let once = video.with_failure("boom");
    assert_eq!(1, once.fail_count);
    assert_eq!(Some("1: boom\n\n".to_string()), once.fail_reason);
    let twice = once.with_failure("again");
    assert_eq!(2, twice.fail_count);
    assert_eq!(Some("2: again\n\n1: boom\n\n".to_string()), twice.fail_reason);
    assert_eq!(Status::Split, twice.status);
}

#[test]
fn error_messages_match_diagnostics() {
    assert_eq!(
        "part count does not match: expected: 4, got: 3",
        UploaderError::PartCountMismatch(4, 3).message()
    );
    assert_eq!(
        "Could not find client for user: 7",
        UploaderError::NoClient(7).message()
    );
    assert_eq!(
        "Could not find user: -2",
        UploaderError::UnknownUser(-2).message()
    );
    assert_eq!("wrong file extension", UploaderError::WrongFileExtension.message());
    assert_eq!("could not parse date", UploaderError::ParseDate.message());
    assert_eq!(
        "Error with some Youtube operation: quota ",
        UploaderError::YoutubeError("quota".to_string()).message()
    );
}
