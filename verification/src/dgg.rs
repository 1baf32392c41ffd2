//! Destiny.gg chat: the frames of its chat socket, its live-status socket,
//! sign-in, and its emote and flair lists.

use vstd::prelude::*;
use crate::name_map::NameMap;
use crate::model::{
    ChannelStatus, ChatMessage, CssAnimationData, Emote, EmoteSource, EmoteStatus, IncomingMessage, MessageType,
    OutgoingMessage, ProviderName, UserProfile,
};
use crate::color::{color_from_hex_spec, color_hex_too_short, convert_color_hex};
use crate::twitch::{chrono_representable, div_toward_zero, timestamp_millis};
use crate::text::{
    chars_eq, chars_of, copy_range, lowercase, push_char, push_chars, push_str, string_from_chars, to_lowercase, views,
};

verus! {

/// The name of the Destiny.gg channel.
pub open spec fn dgg_channel() -> Seq<char> {
    seq!['D', 'e', 's', 't', 'i', 'n', 'y']
}

/// The name of the Destiny.gg channel.
pub fn dgg_channel_name() -> (r: String)
    ensures
        r@ == dgg_channel(),
{
    let n = ['D', 'e', 's', 't', 'i', 'n', 'y'];
    assert(n@ == dgg_channel());
    string_from_chars(n.as_slice())
}

/// The position of the first space in a text.
pub open spec fn first_space(s: Seq<char>) -> Option<int>
    decreases s.len(),
{
    if s.len() == 0 {
        None
    } else if s[0] == ' ' {
        Some(0)
    } else {
        match first_space(s.drop_first()) {
            Some(i) => Some(i + 1),
            None => None,
        }
    }
}

proof fn lemma_first_space(s: Seq<char>, k: int)
    requires
        0 <= k <= s.len(),
        forall|q: int| 0 <= q < k ==> s[q] != ' ',
    ensures
        k < s.len() && s[k] == ' ' ==> first_space(s) == Some(k),
        k == s.len() ==> first_space(s) is None,
    decreases k,
{
    if k > 0 {
        lemma_first_space(s.drop_first(), k - 1);
    }
}

/// Splits a socket frame into its command and its payload at the first space,
/// as `str::split_once(' ')` does; a frame without a space has none.
pub fn split_command(frame: &str) -> (r: Option<(String, String)>)
    ensures
        match first_space(frame@) {
            Some(i) => r matches Some(p) && p.0@ == frame@.take(i) && p.1@ == frame@.skip(i + 1),
            None => r is None,
        },
{
    let cs = chars_of(frame);
    let mut k: usize = 0;
    while k < cs.len() && cs[k] != ' '
        invariant
            k <= cs@.len(),
            cs@ == frame@,
            forall|q: int| 0 <= q < k ==> cs@[q] != ' ',
        decreases cs@.len() - k,
    {
        k += 1;
    }
    proof {
        lemma_first_space(cs@, k as int);
    }
    if k == cs.len() {
        return None;
    }
    let head = copy_range(cs.as_slice(), 0, k);
    let tail = copy_range(cs.as_slice(), k + 1, cs.len());
    assert(head@ == frame@.take(k as int));
    assert(tail@ == frame@.skip(k + 1));
    Some((string_from_chars(head.as_slice()), string_from_chars(tail.as_slice())))
}

/// The commands of the chat socket.
#[derive(Clone, Copy, Debug, PartialEq, Eq, Structural)]
pub enum DggCommand {
    Msg,
    Broadcast,
    Refresh,
    Join,
    Quit,
    Names,
    Unknown,
}

/// The command a frame's first word names.
pub open spec fn command_spec(c: Seq<char>) -> DggCommand {
    if c == "MSG"@ {
        DggCommand::Msg
    } else if c == "BROADCAST"@ {
        DggCommand::Broadcast
    } else if c == "REFRESH"@ {
        DggCommand::Refresh
    } else if c == "JOIN"@ {
        DggCommand::Join
    } else if c == "QUIT"@ {
        DggCommand::Quit
    } else if c == "NAMES"@ {
        DggCommand::Names
    } else {
        DggCommand::Unknown
    }
}

/// Tells which command a frame's first word names.
pub fn command_of(c: &str) -> (r: DggCommand)
    ensures
        r == command_spec(c@),
{
    let cs = chars_of(c);
    let msg = ['M', 'S', 'G'];
    let broadcast = ['B', 'R', 'O', 'A', 'D', 'C', 'A', 'S', 'T'];
    let refresh = ['R', 'E', 'F', 'R', 'E', 'S', 'H'];
    let join = ['J', 'O', 'I', 'N'];
    let quit = ['Q', 'U', 'I', 'T'];
    let names = ['N', 'A', 'M', 'E', 'S'];
    proof {
        reveal_strlit("MSG");
        reveal_strlit("BROADCAST");
        reveal_strlit("REFRESH");
        reveal_strlit("JOIN");
        reveal_strlit("QUIT");
        reveal_strlit("NAMES");
        assert(msg@ == "MSG"@);
        assert(broadcast@ == "BROADCAST"@);
        assert(refresh@ == "REFRESH"@);
        assert(join@ == "JOIN"@);
        assert(quit@ == "QUIT"@);
        assert(names@ == "NAMES"@);
    }
    if chars_eq(cs.as_slice(), msg.as_slice()) {
        DggCommand::Msg
    } else if chars_eq(cs.as_slice(), broadcast.as_slice()) {
        DggCommand::Broadcast
    } else if chars_eq(cs.as_slice(), refresh.as_slice()) {
        DggCommand::Refresh
    } else if chars_eq(cs.as_slice(), join.as_slice()) {
        DggCommand::Join
    } else if chars_eq(cs.as_slice(), quit.as_slice()) {
        DggCommand::Quit
    } else if chars_eq(cs.as_slice(), names.as_slice()) {
        DggCommand::Names
    } else {
        DggCommand::Unknown
    }
}

/// The payload of a MSG (and JOIN and QUIT) frame.
pub struct DggMsg {
    pub nick: String,
    pub features: Vec<String>,
    pub timestamp: usize,
    pub data: Option<String>,
}

/// The payload of a BROADCAST frame.
pub struct DggBroadcast {
    pub timestamp: usize,
    pub data: Option<String>,
}

/// The seconds and nanoseconds of a millisecond timestamp, the number taken
/// as an `i64`.
pub open spec fn ts_secs(ts: usize) -> i64 {
    div_toward_zero((ts as i64) as int, 1000) as i64
}

pub open spec fn ts_nanos(ts: usize) -> u32 {
    ((ts % 1000) * 1_000_000) as u32
}

/// A timestamp of the chat socket can be read.
pub open spec fn ts_ok(ts: usize) -> bool {
    chrono_representable(ts_secs(ts), ts_nanos(ts))
}

/// Milliseconds since the epoch of a timestamp of the chat socket.
pub open spec fn ts_millis(ts: usize) -> i64 {
    (ts_secs(ts) * 1000 + ts_nanos(ts) / 1_000_000) as i64
}

fn timestamp_parts(ts: usize) -> (r: (i64, u32))
    ensures
        r == (ts_secs(ts), ts_nanos(ts)),
{
    let xi = ts as i64;
    let secs: i64 = if xi >= 0 {
        xi / 1000
    } else {
        let neg: i128 = -(xi as i128);
        let q: i128 = neg / 1000;
        (-q) as i64
    };
    let nanos = ((ts % 1000) * 1_000_000) as u32;
    (secs, nanos)
}

fn read_timestamp(ts: usize) -> (r: i64)
    requires
        ts_ok(ts),
    ensures
        r == ts_millis(ts),
{
    let (secs, nanos) = timestamp_parts(ts);
    match timestamp_millis(secs, nanos) {
        Some(m) => m,
        None => 0,
    }
}

/// Whether a timestamp of the chat socket can be read.
pub fn ts_usable(ts: usize) -> (r: bool)
    ensures
        r == ts_ok(ts),
{
    let (secs, nanos) = timestamp_parts(ts);
    timestamp_millis(secs, nanos).is_some()
}

/// The features of a user other than "subscriber".
pub open spec fn flair_features(f: Seq<Seq<char>>) -> Seq<Seq<char>>
    decreases f.len(),
{
    if f.len() == 0 {
        f
    } else if f.last() == "subscriber"@ {
        flair_features(f.drop_last())
    } else {
        flair_features(f.drop_last()).push(f.last())
    }
}

/// `m` is the chat line a MSG frame carries: from the lower-cased nick, with
/// the nick as display name and the features other than "subscriber" as
/// badges (none when there are no others).
pub open spec fn is_dgg_line(m: ChatMessage, msg: DggMsg) -> bool {
    &&& m.provider == ProviderName::DGG
    &&& m.channel@ == dgg_channel()
    &&& m.username@ == lowercase(msg.nick@)
    &&& m.timestamp == ts_millis(msg.timestamp)
    &&& m.message == msg.data->0
    &&& match m.profile.badges {
        Some(b) => flair_features(views(msg.features@)).len() > 0 && views(b@) == flair_features(views(msg.features@)),
        None => flair_features(views(msg.features@)).len() == 0,
    }
    &&& m.profile.display_name == Some(msg.nick)
    &&& m.profile.color is None
    &&& m.combo_data is None
    &&& m.is_removed is None
    &&& m.msg_type == MessageType::Chat
}

/// The chat line of a MSG frame.
pub fn dgg_chat_line(msg: DggMsg) -> (r: ChatMessage)
    requires
        msg.data is Some,
        ts_ok(msg.timestamp),
    ensures
        is_dgg_line(r, msg),
{
    let ghost orig = msg;
    let subscriber = ['s', 'u', 'b', 's', 'c', 'r', 'i', 'b', 'e', 'r'];
    proof {
        reveal_strlit("subscriber");
        assert(subscriber@ == "subscriber"@);
    }
    let mut features: Vec<String> = Vec::new();
    let mut i: usize = 0;
    while i < msg.features.len()
        invariant
            i <= msg.features@.len(),
            subscriber@ == "subscriber"@,
            views(features@) == flair_features(views(msg.features@).take(i as int)),
        decreases msg.features@.len() - i,
    {
        assert(views(msg.features@).take(i + 1).drop_last() == views(msg.features@).take(i as int));
        let ghost before = features@;
        let fc = chars_of(msg.features[i].as_str());
        if !chars_eq(fc.as_slice(), subscriber.as_slice()) {
            features.push(msg.features[i].clone());
            assert(views(features@) == views(before).push(msg.features@[i as int]@));
        }
        i += 1;
    }
    assert(views(msg.features@).take(msg.features@.len() as int) == views(msg.features@));
    let timestamp = read_timestamp(msg.timestamp);
    let username = to_lowercase(msg.nick.as_str());
    let badges = if features.len() > 0 {
        Some(features)
    } else {
        None
    };
    let text = match msg.data {
        Some(d) => d,
        None => String::new(),
    };
    ChatMessage {
        provider: ProviderName::DGG,
        channel: dgg_channel_name(),
        username,
        timestamp,
        message: text,
        profile: UserProfile { badges, display_name: Some(msg.nick), color: None },
        combo_data: None,
        is_removed: None,
        msg_type: MessageType::Chat,
    }
}

/// The line of a BROADCAST frame: no author, in the Destiny.gg channel.
pub fn dgg_broadcast_line(msg: DggBroadcast) -> (r: ChatMessage)
    requires
        msg.data is Some,
        ts_ok(msg.timestamp),
    ensures
        r.provider == ProviderName::DGG,
        r.channel@ == dgg_channel(),
        r.username@.len() == 0,
        r.timestamp == ts_millis(msg.timestamp),
        r.message == msg.data->0,
        r.profile.badges is None && r.profile.display_name is None && r.profile.color is None,
        r.combo_data is None,
        r.is_removed is None,
        r.msg_type == MessageType::Chat,
{
    let timestamp = read_timestamp(msg.timestamp);
    let text = match msg.data {
        Some(d) => d,
        None => String::new(),
    };
    ChatMessage {
        provider: ProviderName::DGG,
        channel: dgg_channel_name(),
        username: String::new(),
        timestamp,
        message: text,
        profile: UserProfile { badges: None, display_name: None, color: None },
        combo_data: None,
        is_removed: None,
        msg_type: MessageType::Chat,
    }
}

/// The chat line of a MSG frame whose timestamp can be read; nothing for one
/// whose timestamp cannot.
pub fn dgg_chat_event(msg: DggMsg) -> (r: Option<ChatMessage>)
    requires
        msg.data is Some,
    ensures
        ts_ok(msg.timestamp) ==> (r matches Some(m) && is_dgg_line(m, msg)),
        !ts_ok(msg.timestamp) ==> r is None,
{
    if ts_usable(msg.timestamp) {
        Some(dgg_chat_line(msg))
    } else {
        None
    }
}

/// The line of a BROADCAST frame whose timestamp can be read; nothing for
/// one whose timestamp cannot.
pub fn dgg_broadcast_event(msg: DggBroadcast) -> (r: Option<ChatMessage>)
    requires
        msg.data is Some,
    ensures
        ts_ok(msg.timestamp) ==> (r matches Some(m) && m.provider == ProviderName::DGG && m.channel@ == dgg_channel()
            && m.username@.len() == 0 && m.timestamp == ts_millis(msg.timestamp) && m.message == msg.data->0
            && m.profile.badges is None && m.profile.display_name is None && m.profile.color is None
            && m.combo_data is None && m.is_removed is None && m.msg_type == MessageType::Chat),
        !ts_ok(msg.timestamp) ==> r is None,
{
    if ts_usable(msg.timestamp) {
        Some(dgg_broadcast_line(msg))
    } else {
        None
    }
}

/// A user joining (`active`) or leaving the Destiny.gg chat, by nick.
pub fn dgg_presence(nick: String, active: bool) -> (r: IncomingMessage)
    ensures
        active ==> (r matches IncomingMessage::UserJoin { channel, username, display_name }
            && channel@ == dgg_channel() && username == nick && display_name == nick),
        !active ==> (r matches IncomingMessage::UserLeave { channel, username, display_name }
            && channel@ == dgg_channel() && username == nick && display_name == nick),
{
    if active {
        IncomingMessage::UserJoin { channel: dgg_channel_name(), username: nick.clone(), display_name: nick }
    } else {
        IncomingMessage::UserLeave { channel: dgg_channel_name(), username: nick.clone(), display_name: nick }
    }
}

/// The text frame that sends a chat line: `MSG {"data":"<line>"}` and a
/// carriage return.
pub open spec fn chat_frame_spec(message: Seq<char>) -> Seq<char> {
    seq!['M', 'S', 'G', ' ', '{', '"', 'd', 'a', 't', 'a', '"', ':', '"'] + message + seq!['"', '}', '\r']
}

/// What the chat socket does with a request of the client: a chat line is
/// sent as a frame, leaving closes the socket; the rest are not for it.
pub enum DggSocketAction {
    Send { frame: String },
    Close,
    Nothing,
}

/// Carries out a request of the client on the chat socket.
pub fn dgg_outgoing(out: OutgoingMessage) -> (r: DggSocketAction)
    ensures
        match out {
            OutgoingMessage::Chat { message, .. } => r matches DggSocketAction::Send { frame } && frame@ == chat_frame_spec(message@),
            OutgoingMessage::Leave { .. } => r is Close,
            _ => r is Nothing,
        },
{
    match out {
        OutgoingMessage::Chat { message, .. } => {
            let pre = ['M', 'S', 'G', ' ', '{', '"', 'd', 'a', 't', 'a', '"', ':', '"'];
            let post = ['"', '}', '\r'];
            let mut frame = String::new();
            push_chars(&mut frame, pre.as_slice());
            push_str(&mut frame, message.as_str());
            push_chars(&mut frame, post.as_slice());
            DggSocketAction::Send { frame }
        },
        OutgoingMessage::Leave { .. } => DggSocketAction::Close,
        _ => DggSocketAction::Nothing,
    }
}

/// The YouTube stream details of a live-status frame.
pub struct LiveStreamDetail {
    pub live: Option<bool>,
    pub game: Option<String>,
    pub status_text: Option<String>,
    pub started_at: Option<String>,
    pub viewers: Option<usize>,
}

/// The status a live-status frame gives: only a "dggApi:streamInfo" frame
/// with YouTube stream details gives one, for the Destiny.gg channel.
pub fn dgg_live_status(msg_type: Option<String>, youtube: Option<LiveStreamDetail>) -> (r: Option<IncomingMessage>)
    ensures
        match (msg_type, youtube) {
            (Some(t), Some(y)) => if t@ == "dggApi:streamInfo"@ {
                r matches Some(IncomingMessage::StreamingStatus { channel, status: Some(st) })
                    && channel@ == dgg_channel()
                    && st == (ChannelStatus {
                        game_name: y.game,
                        is_live: y.live == Some(true),
                        title: y.status_text,
                        viewer_count: y.viewers,
                        started_at: y.started_at,
                    })
            } else {
                r is None
            },
            _ => r is None,
        },
{
    let expected = ['d', 'g', 'g', 'A', 'p', 'i', ':', 's', 't', 'r', 'e', 'a', 'm', 'I', 'n', 'f', 'o'];
    proof {
        reveal_strlit("dggApi:streamInfo");
        assert(expected@ == "dggApi:streamInfo"@);
    }
    match (msg_type, youtube) {
        (Some(t), Some(y)) => {
            let tc = chars_of(t.as_str());
            if chars_eq(tc.as_slice(), expected.as_slice()) {
                let is_live = match y.live {
                    Some(b) => b,
                    None => false,
                };
                Some(IncomingMessage::StreamingStatus {
                    channel: dgg_channel_name(),
                    status: Some(ChannelStatus {
                        game_name: y.game,
                        is_live,
                        title: y.status_text,
                        viewer_count: y.viewers,
                        started_at: y.started_at,
                    }),
                })
            } else {
                None
            }
        },
        _ => None,
    }
}

} // verus!

verus! {

/// The position of the first '.' in a text.
pub open spec fn first_dot(s: Seq<char>) -> Option<int>
    decreases s.len(),
{
    if s.len() == 0 {
        None
    } else if s[0] == '.' {
        Some(0)
    } else {
        match first_dot(s.drop_first()) {
            Some(i) => Some(i + 1),
            None => None,
        }
    }
}

proof fn lemma_first_dot(s: Seq<char>, k: int)
    requires
        0 <= k <= s.len(),
        forall|q: int| 0 <= q < k ==> s[q] != '.',
    ensures
        k < s.len() && s[k] == '.' ==> first_dot(s) == Some(k),
        k == s.len() ==> first_dot(s) is None,
    decreases k,
{
    if k > 0 {
        lemma_first_dot(s.drop_first(), k - 1);
    }
}

/// Splits a file name at its first '.', as `str::split_once('.')` does.
fn split_at_dot(s: &str) -> (r: Option<(String, String)>)
    ensures
        match first_dot(s@) {
            Some(i) => r matches Some(p) && p.0@ == s@.take(i) && p.1@ == s@.skip(i + 1),
            None => r is None,
        },
{
    let cs = chars_of(s);
    let mut k: usize = 0;
    while k < cs.len() && cs[k] != '.'
        invariant
            k <= cs@.len(),
            cs@ == s@,
            forall|q: int| 0 <= q < k ==> cs@[q] != '.',
        decreases cs@.len() - k,
    {
        k += 1;
    }
    proof {
        lemma_first_dot(cs@, k as int);
    }
    if k == cs.len() {
        return None;
    }
    let head = copy_range(cs.as_slice(), 0, k);
    let tail = copy_range(cs.as_slice(), k + 1, cs.len());
    assert(head@ == s@.take(k as int));
    assert(tail@ == s@.skip(k + 1));
    Some((string_from_chars(head.as_slice()), string_from_chars(tail.as_slice())))
}

/// An image of a Destiny.gg emote or flair.
pub struct DggEmoteImage {
    pub url: String,
    pub name: String,
}

/// A flair as the Destiny.gg flair list gives it.
pub struct DggFlair {
    pub label: String,
    pub name: String,
    pub priority: isize,
    pub color: String,
    pub image: Vec<DggEmoteImage>,
}

/// An emote as the Destiny.gg emote list gives it.
pub struct DggEmote {
    pub prefix: String,
    pub image: Vec<DggEmoteImage>,
}

/// "cache/dgg/", where Destiny.gg images are kept.
pub open spec fn dgg_cache_path() -> Seq<char> {
    seq!['c', 'a', 'c', 'h', 'e', '/', 'd', 'g', 'g', '/']
}

/// An image whose file name has a '.', splitting it into id and extension.
pub open spec fn image_ok(image: Seq<DggEmoteImage>) -> bool {
    image.len() > 0 && first_dot(image[0].name@) is Some
}

/// `e` is the emote of an entry with image list `image`: the first image's
/// address, its file name up to the first '.' as id and the rest as
/// extension, kept under "cache/dgg/", not loaded yet.
pub open spec fn is_dgg_image_emote(e: Emote, image: Seq<DggEmoteImage>) -> bool {
    let file = image[0].name@;
    let dot = first_dot(file)->0;
    &&& e.id@ == file.take(dot)
    &&& e.extension matches Some(x) && x@ == file.skip(dot + 1)
    &&& e.url == image[0].url
    &&& e.path@ == dgg_cache_path()
    &&& e.frame_delays is None
    &&& e.loaded == EmoteStatus::NotLoaded
    &&& e.duration_msec == 0
    &&& !e.zero_width
    &&& !e.hidden
    &&& e.source == EmoteSource::Channel
    &&& e.channel_name@.len() == 0
}

/// `e` is the emote of a flair: named after it, its label as display name,
/// its colour, its priority, no animation.
pub open spec fn is_flair_emote(e: Emote, f: DggFlair) -> bool {
    &&& is_dgg_image_emote(e, f.image@)
    &&& e.name == f.name
    &&& e.display_name == Some(f.label)
    &&& e.color == color_from_hex_spec(f.color@)
    &&& e.css_anim is None
    &&& e.priority == f.priority
}

fn image_emote(image: &Vec<DggEmoteImage>) -> (e: Emote)
    requires
        image_ok(image@),
    ensures
        is_dgg_image_emote(e, image@),
        e.name@.len() == 0,
        e.display_name is None,
        e.color is None,
        e.css_anim is None,
        e.priority == 0,
{
    let mut e = Emote::default();
    match split_at_dot(image[0].name.as_str()) {
        Some((id, ext)) => {
            e.id = id;
            e.extension = Some(ext);
        },
        None => {},
    }
    e.url = image[0].url.clone();
    let path = ['c', 'a', 'c', 'h', 'e', '/', 'd', 'g', 'g', '/'];
    assert(path@ == dgg_cache_path());
    e.path = string_from_chars(path.as_slice());
    e
}

/// The flairs can all be read: each has an image with an extension and a
/// readable colour.
pub open spec fn flairs_ok(flairs: Seq<DggFlair>) -> bool {
    forall|i: int| 0 <= i < flairs.len() ==> image_ok((#[trigger] flairs[i]).image@) && !color_hex_too_short(flairs[i].color@)
}

/// The position of the last entry whose name satisfies the given key.
pub open spec fn last_flair(flairs: Seq<DggFlair>, k: Seq<char>) -> Option<int>
    decreases flairs.len(),
{
    if flairs.len() == 0 {
        None
    } else if flairs.last().name@ == k {
        Some(flairs.len() - 1)
    } else {
        last_flair(flairs.drop_last(), k)
    }
}

proof fn lemma_last_flair_bound(flairs: Seq<DggFlair>, k: Seq<char>)
    ensures
        last_flair(flairs, k) matches Some(i) ==> 0 <= i < flairs.len() && flairs[i].name@ == k,
    decreases flairs.len(),
{
    if flairs.len() > 0 {
        lemma_last_flair_bound(flairs.drop_last(), k);
    }
}

/// The emotes of the flair list, by flair name; of two flairs of one name the
/// later is kept.
pub open spec fn flair_map_ok(flairs: Seq<DggFlair>, m: Map<Seq<char>, Emote>) -> bool {
    &&& forall|k: Seq<char>| #[trigger] m.contains_key(k) <==> last_flair(flairs, k) is Some
    &&& forall|k: Seq<char>| #[trigger] m.contains_key(k) ==> is_flair_emote(m[k], flairs[last_flair(flairs, k)->0])
}

/// The flair emotes of the Destiny.gg flair list.
pub fn load_dgg_flairs(flairs: Vec<DggFlair>) -> (r: NameMap<Emote>)
    requires
        flairs_ok(flairs@),
    ensures
        r.wf(),
        flair_map_ok(flairs@, r@),
{
    let mut r: NameMap<Emote> = NameMap::new();
    let mut i: usize = 0;
    while i < flairs.len()
        invariant
            r.wf(),
            i <= flairs@.len(),
            flairs_ok(flairs@),
            flair_map_ok(flairs@.take(i as int), r@),
        decreases flairs@.len() - i,
    {
        let f = &flairs[i];
        assert(image_ok(f.image@) && !color_hex_too_short(f.color@));
        let mut e = image_emote(&f.image);
        e.name = f.name.clone();
        e.display_name = Some(f.label.clone());
        e.color = convert_color_hex(Some(&f.color));
        e.priority = f.priority;
        let ghost before = r@;
        r.insert(f.name.clone(), e);
        proof {
            let t = flairs@.take(i + 1);
            assert(t.drop_last() == flairs@.take(i as int));
            assert(t.last() == *f);
            assert forall|k: Seq<char>| #[trigger] r@.contains_key(k) <==> last_flair(t, k) is Some by {}
            assert forall|k: Seq<char>| #[trigger] r@.contains_key(k) implies is_flair_emote(r@[k], t[last_flair(t, k)->0]) by {
                if k != f.name@ {
                    assert(before.contains_key(k));
                    lemma_last_flair_bound(t.drop_last(), k);
                    assert(t[last_flair(t.drop_last(), k)->0] == t.drop_last()[last_flair(t.drop_last(), k)->0]);
                }
            }
        }
        i += 1;
    }
    assert(flairs@.take(flairs@.len() as int) == flairs@);
    r
}

} // verus!

verus! {

/// The position of the last emote with the given prefix.
pub open spec fn last_emote(emotes: Seq<DggEmote>, k: Seq<char>) -> Option<int>
    decreases emotes.len(),
{
    if emotes.len() == 0 {
        None
    } else if emotes.last().prefix@ == k {
        Some(emotes.len() - 1)
    } else {
        last_emote(emotes.drop_last(), k)
    }
}

proof fn lemma_last_emote_bound(emotes: Seq<DggEmote>, k: Seq<char>)
    ensures
        last_emote(emotes, k) matches Some(i) ==> 0 <= i < emotes.len() && emotes[i].prefix@ == k,
    decreases emotes.len(),
{
    if emotes.len() > 0 {
        lemma_last_emote_bound(emotes.drop_last(), k);
    }
}

/// `e` is the emote of a Destiny.gg emote entry: named by its prefix, with
/// the sprite animation found for that prefix, if any.
pub open spec fn is_dgg_emote(e: Emote, d: DggEmote, anims: Map<Seq<char>, CssAnimationData>) -> bool {
    &&& is_dgg_image_emote(e, d.image@)
    &&& e.name == d.prefix
    &&& e.display_name is None
    &&& e.color is None
    &&& e.priority == 0
    &&& e.css_anim == (if anims.contains_key(d.prefix@) { Some(anims[d.prefix@]) } else { None })
}

/// The emotes of the Destiny.gg emote list, by prefix; of two entries of one
/// prefix the later is kept.
pub open spec fn emote_map_ok(emotes: Seq<DggEmote>, anims: Map<Seq<char>, CssAnimationData>, m: Map<Seq<char>, Emote>) -> bool {
    &&& forall|k: Seq<char>| #[trigger] m.contains_key(k) <==> last_emote(emotes, k) is Some
    &&& forall|k: Seq<char>| #[trigger] m.contains_key(k) ==> is_dgg_emote(m[k], emotes[last_emote(emotes, k)->0], anims)
}

/// The emotes of the Destiny.gg emote list, with the sprite animations read
/// from its stylesheet.
pub fn load_dgg_emotes(emotes: Vec<DggEmote>, css_anim_data: &NameMap<CssAnimationData>) -> (r: NameMap<Emote>)
    requires
        forall|i: int| 0 <= i < emotes@.len() ==> image_ok((#[trigger] emotes@[i]).image@),
        css_anim_data.wf(),
    ensures
        r.wf(),
        emote_map_ok(emotes@, css_anim_data@, r@),
{
    let mut r: NameMap<Emote> = NameMap::new();
    let mut i: usize = 0;
    while i < emotes.len()
        invariant
            r.wf(),
            css_anim_data.wf(),
            i <= emotes@.len(),
            forall|i: int| 0 <= i < emotes@.len() ==> image_ok((#[trigger] emotes@[i]).image@),
            emote_map_ok(emotes@.take(i as int), css_anim_data@, r@),
        decreases emotes@.len() - i,
    {
        let d = &emotes[i];
        assert(image_ok(d.image@));
        let mut e = image_emote(&d.image);
        e.name = d.prefix.clone();
        e.css_anim = match css_anim_data.get(d.prefix.as_str()) {
            Some(a) => Some(*a),
            None => None,
        };
        let ghost before = r@;
        r.insert(d.prefix.clone(), e);
        proof {
            let t = emotes@.take(i + 1);
            assert(t.drop_last() == emotes@.take(i as int));
            assert(t.last() == *d);
            assert forall|k: Seq<char>| #[trigger] r@.contains_key(k) <==> last_emote(t, k) is Some by {}
            assert forall|k: Seq<char>| #[trigger] r@.contains_key(k) implies is_dgg_emote(r@[k], t[last_emote(t, k)->0], css_anim_data@) by {
                if k != d.prefix@ {
                    assert(before.contains_key(k));
                    lemma_last_emote_bound(t.drop_last(), k);
                    assert(t[last_emote(t.drop_last(), k)->0] == t.drop_last()[last_emote(t.drop_last(), k)->0]);
                }
            }
        }
        i += 1;
    }
    assert(emotes@.take(emotes@.len() as int) == emotes@);
    r
}

/// The lower-case hexadecimal SHA-256 digest of a text's UTF-8 bytes, as
/// `sha256::digest` gives it.
pub uninterp spec fn sha256_hex(s: Seq<char>) -> Seq<char>;

/// Digests a text with SHA-256.
///
/// Calls `sha256::digest`; the contract names the result as a function of the
/// text.
#[verifier::external_body]
fn sha256_digest(s: &str) -> (r: String)
    ensures
        r@ == sha256_hex(s@),
{
    sha256::digest(s)
}

/// The standard base64 text of a text's UTF-8 bytes, padded, as
/// `base64::encode` gives it.
pub uninterp spec fn base64_of(s: Seq<char>) -> Seq<char>;

/// Encodes a text's bytes in base64.
///
/// Calls `base64::encode` (the standard alphabet, padded); the contract names
/// the result as a function of the text.
#[verifier::external_body]
#[allow(deprecated)]
fn base64_encode(s: &str) -> (r: String)
    ensures
        r@ == base64_of(s@),
{
    base64::encode(s)
}

/// The secret mixed into the code challenge of a Destiny.gg sign-in.
pub open spec fn dgg_secret() -> Seq<char> {
    "S0eHxQsXfbo!l=Pk~pf7[ZWSC.C7BlWK1YFNgKkqxQ!ojZ1C~tYyVh3+SsxCn-kY"@
}

/// The Destiny.gg sign-in page for a code verifier and a state: the challenge
/// is the base64 of the SHA-256 hex digest of the verifier followed by the
/// hex digest of the secret.
pub open spec fn dgg_authorize_url(verifier: Seq<char>, state: Seq<char>) -> Seq<char> {
    "https://www.destiny.gg/oauth/authorize?response_type=code&client_id=dbrq5gUQDWmv6jBzFt9UwpN8VQOIeO7i&redirect_uri=https://dbckr.github.io/GigachatAuth&state="@
        + state + "&code_challenge="@ + base64_of(sha256_hex(verifier + sha256_hex(dgg_secret())))
}

/// The sign-in page for a given code verifier and state number.
pub fn dgg_authorize_url_for(verifier: &String, state: u128) -> (r: String)
    ensures
        r@ == dgg_authorize_url(verifier@, crate::numbers::decimal_text(state as nat)),
{
    let secret = sha256_digest("S0eHxQsXfbo!l=Pk~pf7[ZWSC.C7BlWK1YFNgKkqxQ!ojZ1C~tYyVh3+SsxCn-kY");
    let mut both = verifier.clone();
    push_str(&mut both, secret.as_str());
    let digest = sha256_digest(both.as_str());
    let challenge = base64_encode(digest.as_str());
    let mut r = String::new();
    push_str(
        &mut r,
        "https://www.destiny.gg/oauth/authorize?response_type=code&client_id=dbrq5gUQDWmv6jBzFt9UwpN8VQOIeO7i&redirect_uri=https://dbckr.github.io/GigachatAuth&state=",
    );
    crate::numbers::push_decimal(&mut r, state);
    push_str(&mut r, "&code_challenge=");
    push_str(&mut r, challenge.as_str());
    r
}

/// Starts a Destiny.gg sign-in: a random code verifier (two random numbers in
/// hexadecimal) and the sign-in page to open, with a random state.
pub fn begin_authenticate() -> (r: (String, String))
    ensures
        exists|a: u128, b: u128, c: u128| {
            &&& #[trigger] r.0@ == crate::numbers::hex_text(a as nat) + crate::numbers::hex_text(b as nat)
            &&& r.1@ == dgg_authorize_url(r.0@, crate::numbers::decimal_text(c as nat))
        },
{
    let a = crate::numbers::random_u128();
    let b = crate::numbers::random_u128();
    let mut verifier = String::new();
    crate::numbers::push_hex(&mut verifier, a);
    crate::numbers::push_hex(&mut verifier, b);
    let state = crate::numbers::random_u128();
    let url = dgg_authorize_url_for(&verifier, state);
    (verifier, url)
}

/// The address that trades a sign-in code for a token.
pub open spec fn dgg_token_url(code: Seq<char>, verifier: Seq<char>) -> Seq<char> {
    "https://www.destiny.gg/oauth/token?grant_type=authorization_code&code="@ + code
        + "&client_id=dbrq5gUQDWmv6jBzFt9UwpN8VQOIeO7i&redirect_uri=https://dbckr.github.io/GigachatAuth&code_verifier="@
        + verifier
}

/// The address that completes a Destiny.gg sign-in.
pub fn complete_authenticate_url(code: &str, code_verifier: &String) -> (r: String)
    ensures
        r@ == dgg_token_url(code@, code_verifier@),
{
    let mut r = String::new();
    push_str(&mut r, "https://www.destiny.gg/oauth/token?grant_type=authorization_code&code=");
    push_str(&mut r, code);
    push_str(&mut r, "&client_id=dbrq5gUQDWmv6jBzFt9UwpN8VQOIeO7i&redirect_uri=https://dbckr.github.io/GigachatAuth&code_verifier=");
    push_str(&mut r, code_verifier.as_str());
    r
}

/// The address that refreshes a Destiny.gg token.
pub open spec fn dgg_refresh_url(refresh_token: Seq<char>) -> Seq<char> {
    "https://www.destiny.gg/oauth/token?grant_type=refresh_token&client_id=dbrq5gUQDWmv6jBzFt9UwpN8VQOIeO7i&refresh_token="@
        + refresh_token
}

/// The address that refreshes a Destiny.gg token.
pub fn refresh_auth_token_url(refresh_token: &String) -> (r: String)
    ensures
        r@ == dgg_refresh_url(refresh_token@),
{
    let mut r = String::new();
    push_str(&mut r, "https://www.destiny.gg/oauth/token?grant_type=refresh_token&client_id=dbrq5gUQDWmv6jBzFt9UwpN8VQOIeO7i&refresh_token=");
    push_str(&mut r, refresh_token.as_str());
    r
}

} // verus!
