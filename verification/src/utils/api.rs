//! The platform's records, and the requests that ask for them.
//!
//! The records mirror the JSON the platform sends. Nothing here touches the
//! network: the functions below say which URL and which headers a request
//! carries, and what is read out of a decoded answer.

use vstd::prelude::*;
use vstd::string::StringExecFns;
use crate::utils::text::{decimal, render_decimal};

verus! {

/// The answer of the token endpoint to a client-credentials grant.
#[derive(Debug)]
pub struct TwitchAuthResponse {
    pub access_token: String,
    pub expires_in: u32,
    pub token_type: String,
}

/// The answer of the user lookup: the users that carry the login asked for.
#[derive(Debug)]
pub struct TwitchGetUsersResponse {
    pub data: Vec<TwitchUser>,
}

/// One user of the platform; `id` is the broadcaster id of their channel.
#[derive(Debug, Clone)]
pub struct TwitchUser {
    pub id: String,
    pub login: String,
    pub display_name: String,
    pub broadcaster_type: String,
    pub description: String,
    pub profile_image_url: String,
    pub offline_image_url: String,
    pub view_count: u32,
    pub created_at: String,
}

/// One page of a channel's clips, or, as the result of a whole fetch, the
/// clips of all its pages in the order the platform gave them.
#[derive(Debug)]
pub struct TwitchGetClipsResponse {
    pub data: Vec<TwitchClip>,
    pub pagination: Option<TwitchPagination>,
}

/// One clip. `id` alone identifies it; `url` is where it is downloaded from;
/// every other field is carried along untouched.
#[derive(Debug, Clone)]
pub struct TwitchClip {
    pub id: String,
    pub url: String,
    pub embed_url: String,
    pub broadcaster_id: String,
    pub broadcaster_name: String,
    pub creator_id: String,
    pub creator_name: String,
    pub video_id: String,
    pub game_id: String,
    pub language: String,
    pub title: String,
    pub view_count: u32,
    pub created_at: String,
    pub thumbnail_url: String,
    /// The clip's length in seconds, held as the bit pattern of the
    /// single-precision number the platform reports.
    pub duration_bits: u32,
    /// The clip's offset into the broadcast in seconds, where known, held as
    /// the bit pattern of a single-precision number.
    pub vod_offset_bits: Option<u32>,
    pub is_featured: bool,
}

/// Where a page of results ended.
#[derive(Debug, Clone)]
pub struct TwitchPagination {
    /// The token that asks for the page after this one; absent on the last.
    pub cursor: Option<String>,
}

/// The most clips the platform hands out in one answer.
pub const PAGE_CAP: u32 = 100;

/// A request for one page of clips: how many, and after which cursor.
#[derive(Debug, Clone, PartialEq, Eq)]
pub struct PageRequest {
    pub first: u32,
    pub after: Option<String>,
}

/// The text of an optional string, where there is one.
pub open spec fn text_of(s: Option<String>) -> Option<Seq<char>> {
    match s {
        Some(t) => Some(t@),
        None => None,
    }
}

/// The address of the token endpoint.
pub open spec fn token_url_text() -> Seq<char> {
    "https://id.twitch.tv/oauth2/token"@
}

/// The value of the `Authorization` header for a bearer token.
pub open spec fn bearer_header_text(access_token: Seq<char>) -> Seq<char> {
    "Bearer "@ + access_token
}

/// The address that looks up the user with the login `name`.
pub open spec fn users_url_text(name: Seq<char>) -> Seq<char> {
    "https://api.twitch.tv/helix/users?login="@ + name
}

/// The address that asks for `first` clips of a channel, never more than
/// `PAGE_CAP`, past the cursor `after` where one is given.
pub open spec fn clips_url_text(
    channel_id: Seq<char>,
    first: u32,
    after: Option<Seq<char>>,
) -> Seq<char> {
    let count: nat = if first <= PAGE_CAP {
        first as nat
    } else {
        PAGE_CAP as nat
    };
    let tail: Seq<char> = match after {
        Some(cursor) => "&after="@ + cursor,
        None => Seq::empty(),
    };
    "https://api.twitch.tv/helix/clips?broadcaster_id="@ + channel_id + "&first="@ + decimal(count)
        + tail
}

/// The address of the token endpoint.
pub fn token_url() -> (url: String)
    ensures
        url@ == token_url_text(),
{
    String::from_str("https://id.twitch.tv/oauth2/token")
}

/// The form fields of a client-credentials grant, in the order they are sent.
pub fn token_form(
    client_id: &str,
    client_secret: &str,
    grant_type: &str,
) -> (form: Vec<(String, String)>)
    ensures
        form@.len() == 3,
        form@[0].0@ == "client_id"@ && form@[0].1@ == client_id@,
        form@[1].0@ == "client_secret"@ && form@[1].1@ == client_secret@,
        form@[2].0@ == "grant_type"@ && form@[2].1@ == grant_type@,
{
    let mut form: Vec<(String, String)> = Vec::new();
    form.push((String::from_str("client_id"), String::from_str(client_id)));
    form.push((String::from_str("client_secret"), String::from_str(client_secret)));
    form.push((String::from_str("grant_type"), String::from_str(grant_type)));
    form
}

/// The value of the `Authorization` header that presents `access_token`.
pub fn bearer_header(access_token: &str) -> (header: String)
    ensures
        header@ == bearer_header_text(access_token@),
{
    let mut header: String = String::from_str("Bearer ");
    header.append(access_token);
    header
}

/// The address that looks up the user with the login `name`.
pub fn users_url(name: &str) -> (url: String)
    ensures
        url@ == users_url_text(name@),
{
    let mut url: String = String::from_str("https://api.twitch.tv/helix/users?login=");
    url.append(name);
    url
}

/// The address that asks the platform for the page `request` of a channel's
/// clips. A count above `PAGE_CAP` is sent as `PAGE_CAP`.
pub fn clips_url(channel_id: &str, request: &PageRequest) -> (url: String)
    ensures
        url@ == clips_url_text(channel_id@, request.first, text_of(request.after)),
{
    let count: u32 = if request.first <= PAGE_CAP {
        request.first
    } else {
        PAGE_CAP
    };
    let mut url: String = String::from_str("https://api.twitch.tv/helix/clips?broadcaster_id=");
    url.append(channel_id);
    url.append("&first=");
    let digits: String = render_decimal(count);
    url.append(digits.as_str());
    match &request.after {
        Some(cursor) => {
            url.append("&after=");
            url.append(cursor.as_str());
        },
        None => {},
    }
    assert(url@ =~= clips_url_text(channel_id@, request.first, text_of(request.after)));
    url
}

impl TwitchGetUsersResponse {
    /// The user the lookup found: the first of the answer, if it holds any.
    pub fn into_first_user(self) -> (user: Option<TwitchUser>)
        ensures
            user == if self.data@.len() == 0 {
                None
            } else {
                Some(self.data@[0])
            },
    {
        let mut data: Vec<TwitchUser> = self.data;
        if data.len() == 0 {
            None
        } else {
            Some(data.swap_remove(0))
        }
    }
}

} // verus!
