//! The template substitution engine and the render payload it fills.
//!
//! Rendering is a pure transform: recognized tokens of a template are
//! substituted by literal find-replace with values drawn from a video,
//! its user and a target, and title outputs are truncated to the
//! platform's hard length limit.

use vstd::prelude::*;
use vstd::string::*;
use crate::dates::{
    civil_from_instant, civil_of, date_prefix_chars, get_date_prefix, format_local_datetime,
    long_datetime_chars, offset_secs_of, parse_date, parse_fixed_offset, rfc3339_secs_of,
};
use crate::errors::UploaderError;
use crate::models::{UsersModel, VideosModel};
use crate::text::{
    dec_chars, replace_all, replace_seq, shorten_string_if_needed, shortened, usize_to_string,
    zero_pad, zero_pad_str,
};

verus! {

/// The hard limit the platform puts on a title's length.
const YOUTUBE_TITLE_MAX_LENGTH: usize = 100;

/// What a rendering is for: one part of a video, or the whole playlist.
#[derive(Debug, Clone, Copy, PartialEq, Eq, Hash)]
pub enum Location {
    Video(usize),
    Playlist,
}

/// The privacy level sent with an upload; the pipeline always chooses the
/// most restrictive one.
#[derive(Debug, Clone, Copy, PartialEq, Eq, Structural)]
pub enum PrivacyStatus {
    Public,
    Unlisted,
    Private,
}

/// The fully rendered metadata bundle for one video's uploads: playlist
/// fields shared by all parts, and per-part fields filled for one part.
#[derive(Debug, Clone)]
pub struct VideoData {
    pub part_number: usize,
    pub video_title: String,
    pub video_description: String,
    pub video_tags: Vec<String>,
    pub video_category: u32,
    pub video_privacy: PrivacyStatus,
    pub playlist_title: String,
    pub playlist_description: String,
    pub playlist_privacy: PrivacyStatus,
}

/// The four token templates a rendering starts from.
pub struct Templates {
    pub video_title: String,
    pub video_description: String,
    pub playlist_title: String,
    pub playlist_description: String,
}

/// The built-in per-part title template.
pub open spec fn default_video_title_template() -> Seq<char> {
    "[$$upload_date_short$$]$$part_ident$$ $$original_title$$"@
}

/// The built-in playlist title template.
pub open spec fn default_playlist_title_template() -> Seq<char> {
    "[$$upload_date_short$$] $$original_title$$"@
}

/// The built-in description template, used for parts and playlists alike.
pub open spec fn default_description_template() -> Seq<char> {
    "default description for video: $$original_title$$ from $$upload_date$$\n\nOriginal stream here: \n$$twitch_url$$\n\nWatch $$twitch_channel_name$$ live at: $$twitch_channel_url$$"@
}

impl Default for Templates {
    /// The built-in templates.
    fn default() -> (r: Templates)
        ensures
            r.video_title@ == default_video_title_template(),
            r.video_description@ == default_description_template(),
            r.playlist_title@ == default_playlist_title_template(),
            r.playlist_description@ == default_description_template(),
    {
        Templates {
            video_title: String::from_str(
                "[$$upload_date_short$$]$$part_ident$$ $$original_title$$",
            ),
            video_description: String::from_str(
                "default description for video: $$original_title$$ from $$upload_date$$\n\nOriginal stream here: \n$$twitch_url$$\n\nWatch $$twitch_channel_name$$ live at: $$twitch_channel_url$$",
            ),
            playlist_title: String::from_str("[$$upload_date_short$$] $$original_title$$"),
            playlist_description: String::from_str(
                "default description for video: $$original_title$$ from $$upload_date$$\n\nOriginal stream here: \n$$twitch_url$$\n\nWatch $$twitch_channel_name$$ live at: $$twitch_channel_url$$",
            ),
        }
    }
}

/// No recognized token is empty, so each may stand as a find-replace
/// pattern.
proof fn lemma_token_lens()
    ensures
        "$$original_title$$"@.len() != 0,
        "$$original_description$$"@.len() != 0,
        "$$upload_date$$"@.len() != 0,
        "$$upload_date_short$$"@.len() != 0,
        "$$twitch_url$$"@.len() != 0,
        "$$twitch_channel_name$$"@.len() != 0,
        "$$twitch_channel_url$$"@.len() != 0,
        "$$part_count$$"@.len() != 0,
        "$$part_ident$$"@.len() != 0,
{
    reveal_strlit("$$original_title$$");
    reveal_strlit("$$original_description$$");
    reveal_strlit("$$upload_date$$");
    reveal_strlit("$$upload_date_short$$");
    reveal_strlit("$$twitch_url$$");
    reveal_strlit("$$twitch_channel_name$$");
    reveal_strlit("$$twitch_channel_url$$");
    reveal_strlit("$$part_count$$");
    reveal_strlit("$$part_ident$$");
}

/// The instant a video's creation timestamp names, when it parses.
pub open spec fn created_secs(video: VideosModel) -> i64 {
    rfc3339_secs_of(video.created_at@).unwrap()
}

/// The seconds east of UTC a user's timezone names, when it parses.
pub open spec fn tz_offset(user: UsersModel) -> i32 {
    offset_secs_of(user.timezone@).unwrap()
}

/// Both texts rendering depends on parse: the video's creation timestamp
/// and the user's timezone.
pub open spec fn dates_parse(video: VideosModel, user: UsersModel) -> bool {
    &&& rfc3339_secs_of(video.created_at@) is Some
    &&& offset_secs_of(user.timezone@) is Some
}

/// A template after substitution of every target-independent token, in
/// the engine's fixed order. Meaningful when `dates_parse` holds.
pub open spec fn common_substituted(
    input: Seq<char>,
    video: VideosModel,
    user: UsersModel,
    max: nat,
) -> Seq<char> {
    let off = tz_offset(user) as int;
    let local = created_secs(video) + off;
    let c = civil_of(local);
    let s1 = replace_seq(input, "$$original_title$$"@, video.name@);
    let s2 = replace_seq(s1, "$$original_description$$"@, Seq::<char>::empty());
    let s3 = replace_seq(s2, "$$upload_date$$"@, long_datetime_chars(c, off));
    let s4 = replace_seq(
        s3,
        "$$upload_date_short$$"@,
        date_prefix_chars(c.year as int, c.month as int, c.day as int),
    );
    let s5 = replace_seq(
        s4,
        "$$twitch_url$$"@,
        match video.twitch_download_url {
            Some(u) => u@,
            None => Seq::<char>::empty(),
        },
    );
    let s6 = replace_seq(s5, "$$twitch_channel_name$$"@, user.twitch_name@);
    let s7 = replace_seq(s6, "$$twitch_channel_url$$"@, "https://twitch.tv/"@ + user.twitch_id@);
    replace_seq(s7, "$$part_count$$"@, dec_chars(max))
}

/// The zero-padded `[current/total]` progress indicator; the padding
/// width is the digit count of the total.
pub open spec fn progress_chars(max: nat, current: nat) -> Seq<char> {
    let w = dec_chars(max).len() as int;
    seq!['['] + zero_pad(dec_chars(current), w) + seq!['/'] + zero_pad(dec_chars(max), w)
        + seq![']']
}

/// A template after substitution of the progress indicator token, which
/// renders empty when the video has at most one part.
pub open spec fn part_ident_substituted(input: Seq<char>, current: nat, max: nat) -> Seq<char> {
    let rep = if max > 1 {
        progress_chars(max, current)
    } else {
        Seq::<char>::empty()
    };
    replace_seq(input, "$$part_ident$$"@, rep)
}

/// A template after every substitution for the given target.
pub open spec fn substituted(
    input: Seq<char>,
    video: VideosModel,
    user: UsersModel,
    target: Location,
) -> Seq<char> {
    let max = (video.part_count as usize) as nat;
    let common = common_substituted(input, video, user, max);
    match target {
        Location::Video(current) => part_ident_substituted(common, current as nat, max),
        Location::Playlist => common,
    }
}

/// The title template for a target: always the built-in one.
pub open spec fn title_template_chars(target: Location) -> Seq<char> {
    match target {
        Location::Video(_) => default_video_title_template(),
        Location::Playlist => default_playlist_title_template(),
    }
}

/// The description template for a target: the configured override when
/// one is set, else the built-in one.
pub open spec fn description_template_chars(target: Location, configured: Seq<char>) -> Seq<
    char,
> {
    if configured.len() != 0 {
        configured
    } else {
        default_description_template()
    }
}

/// Hands out the title template for a target.
pub fn get_title_template(target: Location) -> (r: String)
    ensures
        r@ == title_template_chars(target),
{
    let templates = Templates::default();
    match target {
        Location::Video(_) => templates.video_title,
        Location::Playlist => templates.playlist_title,
    }
}

/// Hands out the description template for a target, preferring the
/// operator-configured override when it is non-empty.
pub fn get_description_template(target: Location, configured: &str) -> (r: String)
    ensures
        r@ == description_template_chars(target, configured@),
{
    if !configured.is_empty() {
        return String::from_str(configured);
    }
    let templates = Templates::default();
    match target {
        Location::Video(_) => templates.video_description,
        Location::Playlist => templates.playlist_description,
    }
}

/// Renders the `[current/total]` progress indicator, zero-padding the
/// current part to the total's digit count.
pub fn format_progress(max: usize, current: usize) -> (r: String)
    ensures
        r@ == progress_chars(max as nat, current as nat),
{
    proof {
        reveal_strlit("[");
        reveal_strlit("/");
        reveal_strlit("]");
        assert("["@ =~= seq!['[']);
        assert("/"@ =~= seq!['/']);
        assert("]"@ =~= seq![']']);
    }
    let maxs = usize_to_string(max);
    let w = maxs.as_str().unicode_len();
    let mut r = String::from_str("[");
    r.append(zero_pad_str(usize_to_string(current).as_str(), w).as_str());
    r.append("/");
    r.append(zero_pad_str(maxs.as_str(), w).as_str());
    r.append("]");
    proof {
        assert(r@ =~= progress_chars(max as nat, current as nat));
    }
    r
}

/// Substitutes the progress indicator token: `[current/total]` when the
/// video has more than one part, the empty string otherwise.
pub fn substitute_part_ident(input: &str, current: usize, max: usize) -> (r: String)
    ensures
        r@ == part_ident_substituted(input@, current as nat, max as nat),
{
    proof {
        lemma_token_lens();
    }
    let part_prefix = if max > 1 {
        format_progress(max, current)
    } else {
        String::new()
    };
    replace_all(input, "$$part_ident$$", part_prefix.as_str())
}

/// Substitutes every target-independent token of `input`, in the
/// engine's fixed order; fails exactly when the video's creation
/// timestamp or the user's timezone does not parse.
fn substitute_common(input: String, video: &VideosModel, user: &UsersModel, max: usize) -> (r:
    Result<String, UploaderError>)
    ensures
        r is Ok <==> dates_parse(*video, *user),
        r matches Ok(s) ==> s@ == common_substituted(input@, *video, *user, max as nat),
        r matches Err(e) ==> e == UploaderError::ParseDate,
{
    proof {
        lemma_token_lens();
        reveal_strlit("");
        assert(""@ =~= Seq::<char>::empty());
    }
    let t = match parse_date(video.created_at.as_str()) {
        Some(t) => t,
        None => {
            return Err(UploaderError::ParseDate);
        },
    };
    let off = match parse_fixed_offset(user.timezone.as_str()) {
        Some(o) => o,
        None => {
            return Err(UploaderError::ParseDate);
        },
    };
    let c = civil_from_instant(t, off);
    let date_long = format_local_datetime(&c, off);
    let date_prefix = get_date_prefix(&c);
    let s1 = replace_all(input.as_str(), "$$original_title$$", video.name.as_str());
    let s2 = replace_all(s1.as_str(), "$$original_description$$", "");
    let s3 = replace_all(s2.as_str(), "$$upload_date$$", date_long.as_str());
    let s4 = replace_all(s3.as_str(), "$$upload_date_short$$", date_prefix.as_str());
    let url: &str = match &video.twitch_download_url {
        Some(u) => u.as_str(),
        None => "",
    };
    let s5 = replace_all(s4.as_str(), "$$twitch_url$$", url);
    let s6 = replace_all(s5.as_str(), "$$twitch_channel_name$$", user.twitch_name.as_str());
    let mut channel_url = String::from_str("https://twitch.tv/");
    channel_url.append(user.twitch_id.as_str());
    let s7 = replace_all(s6.as_str(), "$$twitch_channel_url$$", channel_url.as_str());
    let s8 = replace_all(s7.as_str(), "$$part_count$$", usize_to_string(max).as_str());
    proof {
        assert(match video.twitch_download_url {
            Some(u) => u@,
            None => Seq::<char>::empty(),
        } =~= url@);
    }
    Ok(s8)
}

/// Substitutes every token of `input` for the given target.
fn substitute(input: String, video: &VideosModel, user: &UsersModel, target: Location) -> (r:
    Result<String, UploaderError>)
    ensures
        r is Ok <==> dates_parse(*video, *user),
        r matches Ok(s) ==> s@ == substituted(input@, *video, *user, target),
        r matches Err(e) ==> e == UploaderError::ParseDate,
{
    let max: usize = video.part_count as usize;
    let s = substitute_common(input, video, user, max)?;
    let out = match target {
        Location::Video(current) => substitute_part_ident(s.as_str(), current, max),
        Location::Playlist => s,
    };
    Ok(out)
}

/// Renders the description for a target from the configured or built-in
/// template; fails exactly when the video's creation timestamp or the
/// user's timezone does not parse.
pub fn create_youtube_description(
    video: &VideosModel,
    user: &UsersModel,
    target: Location,
    configured: &str,
) -> (r: Result<String, UploaderError>)
    ensures
        r is Ok <==> dates_parse(*video, *user),
        r matches Ok(s) ==> s@ == substituted(
            description_template_chars(target, configured@),
            *video,
            *user,
            target,
        ),
        r matches Err(e) ==> e == UploaderError::ParseDate,
{
    let s = get_description_template(target, configured);
    let description = substitute(s, video, user, target)?;
    Ok(description)
}

fn clone_string_vec(v: &Vec<String>) -> (r: Vec<String>)
    ensures
        r@ == v@,
{
    let mut r: Vec<String> = Vec::new();
    let mut i: usize = 0;
    while i < v.len()
        invariant
            i <= v@.len(),
            r@ =~= v@.take(i as int),
        decreases v@.len() - i,
    {
        r.push(v[i].clone());
        i = i + 1;
    }
    proof {
        assert(r@ =~= v@);
    }
    r
}

/// Builds the shared render payload for one video's uploads: playlist
/// title and description rendered, category and privacy fixed, tags
/// empty, per-part fields left blank for `VideoData::for_part`; fails
/// exactly when the video's creation timestamp or the user's timezone
/// does not parse.
pub fn build_video_data(video: &VideosModel, user: &UsersModel, configured_description: &str) -> (r:
    Result<VideoData, UploaderError>)
    ensures
        r is Ok <==> dates_parse(*video, *user),
        r matches Ok(d) ==> {
            &&& d.part_number == 0
            &&& d.video_title@ == Seq::<char>::empty()
            &&& d.video_description@ == Seq::<char>::empty()
            &&& d.video_tags@ == Seq::<String>::empty()
            &&& d.video_category == 22
            &&& d.video_privacy == PrivacyStatus::Private
            &&& d.playlist_privacy == PrivacyStatus::Private
            &&& d.playlist_title@ == shortened(
                substituted(
                    title_template_chars(Location::Playlist),
                    *video,
                    *user,
                    Location::Playlist,
                ),
                Some(100),
            )
            &&& d.playlist_description@ == substituted(
                description_template_chars(Location::Playlist, configured_description@),
                *video,
                *user,
                Location::Playlist,
            )
        },
        r matches Err(e) ==> e == UploaderError::ParseDate,
{
    let playlist_description = create_youtube_description(
        video,
        user,
        Location::Playlist,
        configured_description,
    )?;
    let playlist_title = create_youtube_title(video, user, Location::Playlist)?;
    Ok(
        VideoData {
            part_number: 0,
            video_title: String::new(),
            video_description: String::new(),
            video_tags: Vec::new(),
            video_category: 22,
            video_privacy: PrivacyStatus::Private,
            playlist_title,
            playlist_description,
            playlist_privacy: PrivacyStatus::Private,
        },
    )
}

impl VideoData {
    /// The payload for one part: per-part title and description rendered
    /// for that part, everything else carried over; fails exactly when
    /// the video's creation timestamp or the user's timezone does not
    /// parse.
    pub fn for_part(
        &self,
        video: &VideosModel,
        user: &UsersModel,
        part_number: usize,
        configured_description: &str,
    ) -> (r: Result<VideoData, UploaderError>)
        ensures
            r is Ok <==> dates_parse(*video, *user),
            r matches Ok(d) ==> {
                &&& d.part_number == part_number
                &&& d.video_title@ == shortened(
                    substituted(
                        title_template_chars(Location::Video(part_number)),
                        *video,
                        *user,
                        Location::Video(part_number),
                    ),
                    Some(100),
                )
                &&& d.video_description@ == substituted(
                    description_template_chars(
                        Location::Video(part_number),
                        configured_description@,
                    ),
                    *video,
                    *user,
                    Location::Video(part_number),
                )
                &&& d.video_tags@ == self.video_tags@
                &&& d.video_category == self.video_category
                &&& d.video_privacy == self.video_privacy
                &&& d.playlist_title@ == self.playlist_title@
                &&& d.playlist_description@ == self.playlist_description@
                &&& d.playlist_privacy == self.playlist_privacy
            },
            r matches Err(e) ==> e == UploaderError::ParseDate,
    {
        let video_title = create_youtube_title(video, user, Location::Video(part_number))?;
        let video_description = create_youtube_description(
            video,
            user,
            Location::Video(part_number),
            configured_description,
        )?;
        Ok(
            VideoData {
                part_number,
                video_title,
                video_description,
                video_tags: clone_string_vec(&self.video_tags),
                video_category: self.video_category,
                video_privacy: self.video_privacy,
                playlist_title: self.playlist_title.clone(),
                playlist_description: self.playlist_description.clone(),
                playlist_privacy: self.playlist_privacy,
            },
        )
    }
}

/// Renders the title for a target from the built-in template and
/// truncates it to the platform's length limit; fails exactly when the
/// video's creation timestamp or the user's timezone does not parse.
pub fn create_youtube_title(video: &VideosModel, user: &UsersModel, target: Location) -> (r:
    Result<String, UploaderError>)
    ensures
        r is Ok <==> dates_parse(*video, *user),
        r matches Ok(s) ==> s@ == shortened(
            substituted(title_template_chars(target), *video, *user, target),
            Some(100),
        ),
        r matches Err(e) ==> e == UploaderError::ParseDate,
{
    let title_template = get_title_template(target);
    let title = substitute(title_template, video, user, target)?;
    let max_len: Option<usize> = match target {
        Location::Video(_) => Some(YOUTUBE_TITLE_MAX_LENGTH),
        Location::Playlist => Some(YOUTUBE_TITLE_MAX_LENGTH),
    };
    let title = shorten_string_if_needed(title.as_str(), max_len);
    Ok(title)
}

} // verus!
