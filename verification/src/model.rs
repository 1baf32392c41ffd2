//! The data the chat logic works on: providers, messages, profiles, emotes.

use vstd::prelude::*;
use std::ops::Range;

verus! {

/// The chat services a channel can belong to.
#[derive(Clone, Copy, Debug, PartialEq, Eq, Structural, Hash)]
pub enum ProviderName {
    Twitch,
    DGG,
    YouTube,
}

/// What kind of line a chat message is.
#[derive(Clone, Copy, Debug, PartialEq, Eq, Structural, Hash)]
pub enum MessageType {
    Chat,
    Error,
    Information,
    Announcement,
}

/// Whether an emote's image has been loaded.
#[derive(Clone, Copy, Debug, PartialEq, Eq, Structural)]
pub enum EmoteStatus {
    NotLoaded,
    Loaded,
}

/// Where an emote or badge came from; decides how its image is requested.
#[derive(Clone, Copy, Debug, PartialEq, Eq, Structural)]
pub enum EmoteSource {
    Channel,
    Global,
    ChannelBadge,
    GlobalBadge,
    Twitch,
    Youtube,
}

/// Sprite-sheet animation parameters read from a stylesheet.
#[derive(Clone, Copy, Debug, PartialEq, Eq, Structural)]
pub struct CssAnimationData {
    pub width: u32,
    pub cycle_time_msec: isize,
    pub steps: isize,
}

/// Per-user presentation data attached to a message.
#[derive(Debug)]
pub struct UserProfile {
    pub badges: Option<Vec<String>>,
    pub display_name: Option<String>,
    pub color: Option<(u8, u8, u8)>,
}

/// A run of identical one-word messages.
#[derive(Debug)]
pub struct ComboCounter {
    pub word: String,
    pub count: usize,
    pub is_new: bool,
    pub is_end: bool,
    pub users: Vec<(String, (u8, u8, u8))>,
}

/// One line of chat. `timestamp` is milliseconds since the Unix epoch (UTC).
#[derive(Debug)]
pub struct ChatMessage {
    pub provider: ProviderName,
    pub channel: String,
    pub username: String,
    pub timestamp: i64,
    pub message: String,
    pub profile: UserProfile,
    pub combo_data: Option<ComboCounter>,
    pub is_removed: Option<String>,
    pub msg_type: MessageType,
}

/// An emote or badge known to the client. Decoded image frames are held by
/// the rendering layer, keyed by the emote's name; the emote keeps their
/// delays, in milliseconds, once they are loaded.
#[derive(Debug)]
pub struct Emote {
    pub name: String,
    pub id: String,
    pub display_name: Option<String>,
    pub color: Option<(u8, u8, u8)>,
    pub frame_delays: Option<Vec<u16>>,
    pub loaded: EmoteStatus,
    pub duration_msec: u16,
    pub url: String,
    pub path: String,
    pub extension: Option<String>,
    pub zero_width: bool,
    pub css_anim: Option<CssAnimationData>,
    pub priority: isize,
    pub hidden: bool,
    pub source: EmoteSource,
    pub channel_name: String,
}

/// A user seen in a channel.
#[derive(Debug)]
pub struct ChannelUser {
    pub username: String,
    pub display_name: String,
    pub is_active: bool,
}

/// Live-stream status of a channel.
#[derive(Debug)]
pub struct ChannelStatus {
    pub game_name: Option<String>,
    pub is_live: bool,
    pub title: Option<String>,
    pub viewer_count: Option<usize>,
    pub started_at: Option<String>,
}

/// A span of characters of a message laid out on one row.
#[derive(Debug)]
pub enum TextRange {
    Range { range: Range<usize> },
    EndRange { range_start: usize },
}

impl TextRange {
    /// The first character index of the span.
    pub fn start(&self) -> (r: usize)
        ensures
            r == match self {
                TextRange::Range { range } => range.start,
                TextRange::EndRange { range_start } => *range_start,
            },
    {
        match self {
            TextRange::Range { range } => range.start,
            TextRange::EndRange { range_start } => *range_start,
        }
    }
}

/// Which side of the window a chat panel is on.
pub enum ChatPanel {
    Left,
    Right,
}

/// How entries of the emote selector are shown.
#[derive(Clone, Copy, Debug, PartialEq, Eq, Structural)]
pub enum SelectorFormat {
    EmoteAndText,
    EmoteOnly,
    TextOnly,
}

/// Things the interface reacts to on the next frame.
#[derive(Debug)]
pub enum UiEvent {
    ChannelChangeLHS,
    ChannelChangeRHS,
    EmoteSelectionEntered(usize),
    ChannelRemoved(String),
}

/// The state of the "add channel" dialog.
#[derive(Debug)]
pub struct AddChannelMenu {
    pub channel_name: String,
    pub provider: ProviderName,
}

impl Default for AddChannelMenu {
    fn default() -> (r: Self)
        ensures
            r.channel_name@ == Seq::<char>::empty(),
            r.provider == ProviderName::Twitch,
    {
        AddChannelMenu { channel_name: String::new(), provider: ProviderName::Twitch }
    }
}

/// Credentials the user has entered for each service.
#[derive(Debug)]
pub struct AuthTokens {
    pub twitch_username: String,
    pub twitch_auth_token: String,
    pub show_twitch_auth_token: bool,
    pub youtube_auth_token: String,
    pub show_dgg_auth_token: bool,
    pub dgg_username: String,
    pub dgg_auth_token: String,
    pub dgg_verifier: String,
}

impl Default for AuthTokens {
    fn default() -> (r: Self)
        ensures
            r.twitch_username@ == Seq::<char>::empty(),
            r.twitch_auth_token@ == Seq::<char>::empty(),
            !r.show_twitch_auth_token,
            r.youtube_auth_token@ == Seq::<char>::empty(),
            !r.show_dgg_auth_token,
            r.dgg_username@ == Seq::<char>::empty(),
            r.dgg_auth_token@ == Seq::<char>::empty(),
            r.dgg_verifier@ == Seq::<char>::empty(),
    {
        AuthTokens {
            twitch_username: String::new(),
            twitch_auth_token: String::new(),
            show_twitch_auth_token: false,
            youtube_auth_token: String::new(),
            show_dgg_auth_token: false,
            dgg_username: String::new(),
            dgg_auth_token: String::new(),
            dgg_verifier: String::new(),
        }
    }
}

/// Twitch-specific channel data.
#[derive(Debug)]
pub struct TwitchChannel {
    pub room_id: Option<String>,
}

impl Default for TwitchChannel {
    fn default() -> (r: Self)
        ensures
            r.room_id is None,
    {
        TwitchChannel { room_id: None }
    }
}

/// YouTube-specific channel data (none yet).
#[derive(Debug)]
pub struct YoutubeChannel {}

/// Requests from the interface to a chat connection.
#[derive(Debug)]
pub enum OutgoingMessage {
    Chat { channel: String, message: String },
    Leave { channel_name: String },
    Join { channel_name: String },
    TwitchJoin { channel_name: String, room_id: Option<String>, show_offline_chat: bool },
    Quit {},
}

/// Events from a chat connection to the interface.
#[derive(Debug)]
pub enum IncomingMessage {
    PrivMsg { message: ChatMessage },
    EmoteSets { provider: ProviderName, emote_sets: Vec<String> },
    MsgEmotes { provider: ProviderName, emote_ids: Vec<(String, String)> },
    RoomId { channel: String, room_id: String },
    StreamingStatus { channel: String, status: Option<ChannelStatus> },
    UserJoin { channel: String, username: String, display_name: String },
    UserLeave { channel: String, username: String, display_name: String },
    UserMuted { channel: String, username: String },
    VoteStart {},
    VoteStop {},
}

/// Work for the emote loader.
#[derive(Debug)]
pub enum EmoteRequest {
    GlobalEmoteListRequest { force_redownload: bool },
    GlobalEmoteImage { name: String, id: String, url: String, path: String, extension: Option<String> },
    TwitchGlobalBadgeListRequest { token: String, force_redownload: bool },
    GlobalBadgeImage { name: String, id: String, url: String, path: String, extension: Option<String> },
    ChannelEmoteImage {
        name: String,
        id: String,
        url: String,
        path: String,
        extension: Option<String>,
        channel_name: String,
        css_anim: Option<CssAnimationData>,
    },
    ChannelBadgeImage {
        name: String,
        id: String,
        url: String,
        path: String,
        extension: Option<String>,
        channel_name: String,
    },
    TwitchMsgEmoteImage { name: String, id: String },
    TwitchBadgeEmoteListRequest { channel_id: String, channel_name: String, token: String, force_redownload: bool },
    TwitchEmoteSetRequest { token: String, emote_set_id: String, force_redownload: bool },
    DggFlairEmotesRequest { channel_name: String, cdn_base_url: String, force_redownload: bool },
    YouTubeMsgEmoteImage { name: String, url: String, path: String },
}

/// A value for each provider at most, as a map keyed by `ProviderName`.
#[derive(Debug)]
pub struct ProviderMap<V> {
    pub twitch: Option<V>,
    pub dgg: Option<V>,
    pub youtube: Option<V>,
}

impl<V> ProviderMap<V> {
    /// The entry stored for `p`.
    pub open spec fn spec_get(&self, p: ProviderName) -> Option<V> {
        match p {
            ProviderName::Twitch => self.twitch,
            ProviderName::DGG => self.dgg,
            ProviderName::YouTube => self.youtube,
        }
    }

    /// An empty map.
    pub fn new() -> (r: Self)
        ensures
            forall|p: ProviderName| r.spec_get(p).is_none(),
    {
        ProviderMap { twitch: None, dgg: None, youtube: None }
    }

    /// Looks up the entry for `p`.
    pub fn get(&self, p: ProviderName) -> (r: Option<&V>)
        ensures
            match r {
                Some(v) => self.spec_get(p) == Some(*v),
                None => self.spec_get(p).is_none(),
            },
    {
        match p {
            ProviderName::Twitch => self.twitch.as_ref(),
            ProviderName::DGG => self.dgg.as_ref(),
            ProviderName::YouTube => self.youtube.as_ref(),
        }
    }

    /// Sets the entry for `p`, leaving the others alone.
    pub fn insert(&mut self, p: ProviderName, v: V)
        ensures
            final(self).spec_get(p) == Some(v),
            forall|q: ProviderName| q != p ==> final(self).spec_get(q) == old(self).spec_get(q),
    {
        match p {
            ProviderName::Twitch => self.twitch = Some(v),
            ProviderName::DGG => self.dgg = Some(v),
            ProviderName::YouTube => self.youtube = Some(v),
        }
    }
}

} // verus!
