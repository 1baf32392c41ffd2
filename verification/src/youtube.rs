//! YouTube chat arrives through a local bridge: a browser script posts each
//! chat line, and polls for the lines the user sends to its channel.

use vstd::prelude::*;
use crate::model::{ChatMessage, IncomingMessage, MessageType, OutgoingMessage, ProviderName, UserProfile};
use crate::text::{chars_of, copy_range, opt_str_view, push_str, starts_with_spec, str_eq, string_from_chars};
use crate::state::{url_decode, url_decoded};

verus! {

/// The colour of a chat author by role: moderators blue, members green,
/// everyone else grey.
pub open spec fn role_color(role: Option<Seq<char>>) -> (u8, u8, u8) {
    if role == Some("moderator"@) {
        (94u8, 132u8, 241u8)
    } else if role == Some("member"@) {
        (43u8, 166u8, 64u8)
    } else {
        (186u8, 186u8, 186u8)
    }
}

/// The kind of a posted line: an error report, or chat.
pub open spec fn role_kind(role: Option<Seq<char>>) -> MessageType {
    if role == Some("error"@) {
        MessageType::Error
    } else {
        MessageType::Chat
    }
}

/// The tab name of a YouTube channel: "YT:" and the channel's name.
pub open spec fn youtube_tab(channel: Seq<char>) -> Seq<char> {
    "YT:"@ + channel
}

fn role_is(role: &Option<String>, name: &str) -> (r: bool)
    ensures
        r == (opt_str_view(*role) == Some(name@)),
{
    match role {
        Some(x) => str_eq(x.as_str(), name),
        None => false,
    }
}

/// The events of a chat line posted by the bridge: the line itself, from the
/// author in the channel's tab, coloured by the author's role, and, when it
/// names emotes, those emotes as (name, image address) pairs.
pub fn youtube_incoming(
    channel: &String,
    username: &String,
    message: String,
    role: &Option<String>,
    emotes: Option<Vec<(String, String)>>,
    now: i64,
) -> (r: Vec<IncomingMessage>)
    ensures
        r@.len() == (if emotes matches Some(e) && e@.len() > 0 { 2int } else { 1int }),
        r@[0] matches IncomingMessage::PrivMsg { message: m } && {
            &&& m.provider == ProviderName::YouTube
            &&& m.channel@ == youtube_tab(channel@)
            &&& m.username@ == username@
            &&& m.timestamp == now
            &&& m.message == message
            &&& m.profile.badges is None
            &&& opt_str_view(m.profile.display_name) == Some(username@)
            &&& m.profile.color == Some(role_color(opt_str_view(*role)))
            &&& m.combo_data is None
            &&& m.is_removed is None
            &&& m.msg_type == role_kind(opt_str_view(*role))
        },
        emotes matches Some(e) ==> (e@.len() > 0 ==> (r@[1] matches IncomingMessage::MsgEmotes { provider, emote_ids }
            && provider == ProviderName::YouTube && emote_ids == e)),
{
    proof {
        reveal_strlit("moderator");
        reveal_strlit("member");
        reveal_strlit("error");
    }
    let color = if role_is(role, "moderator") {
        (94u8, 132u8, 241u8)
    } else if role_is(role, "member") {
        (43u8, 166u8, 64u8)
    } else {
        (186u8, 186u8, 186u8)
    };
    let kind = if role_is(role, "error") {
        MessageType::Error
    } else {
        MessageType::Chat
    };
    let mut tab = "YT:".to_owned();
    push_str(&mut tab, channel.as_str());
    let line = ChatMessage {
        provider: ProviderName::YouTube,
        channel: tab,
        username: username.clone(),
        timestamp: now,
        message,
        profile: UserProfile { badges: None, display_name: Some(username.clone()), color: Some(color) },
        combo_data: None,
        is_removed: None,
        msg_type: kind,
    };
    let mut r: Vec<IncomingMessage> = Vec::new();
    r.push(IncomingMessage::PrivMsg { message: line });
    match emotes {
        Some(e) => {
            if e.len() > 0 {
                r.push(IncomingMessage::MsgEmotes { provider: ProviderName::YouTube, emote_ids: e });
            }
        },
        None => {},
    }
    r
}

/// Every leading `p` removed, as `str::trim_start_matches` does with a
/// non-empty pattern.
pub open spec fn trim_prefix_all(s: Seq<char>, p: Seq<char>) -> Seq<char>
    decreases s.len(),
{
    if p.len() > 0 && starts_with_spec(s, p) {
        trim_prefix_all(s.skip(p.len() as int), p)
    } else {
        s
    }
}

fn trim_tab_prefix(s: &str) -> (r: String)
    ensures
        r@ == trim_prefix_all(s@, "YT:"@),
{
    let cs = chars_of(s);
    let p = ['Y', 'T', ':'];
    proof {
        reveal_strlit("YT:");
    }
    assert(p@ == "YT:"@);
    let mut i: usize = 0;
    assert(cs@.skip(0) == cs@);
    while 3 <= cs.len() - i && crate::text::matches_at(cs.as_slice(), p.as_slice(), i)
        invariant
            i <= cs@.len(),
            p@ == "YT:"@,
            trim_prefix_all(cs@, p@) == trim_prefix_all(cs@.skip(i as int), p@),
        decreases cs@.len() - i,
    {
        let ghost rest = cs@.skip(i as int);
        assert(rest.subrange(0, 3) == cs@.subrange(i as int, i + 3));
        assert(rest.skip(3) == cs@.skip(i + 3));
        i += 3;
    }
    proof {
        let rest = cs@.skip(i as int);
        if 3 <= rest.len() {
            assert(rest.subrange(0, 3) == cs@.subrange(i as int, i + 3));
        }
        assert(cs@.subrange(i as int, cs@.len() as int) == rest);
    }
    let t = copy_range(cs.as_slice(), i, cs.len());
    string_from_chars(t.as_slice())
}

/// What the bridge is answered when it polls for a channel's outgoing lines.
pub enum YoutubeReply {
    /// A line for the polling channel.
    Send { channel: String, message: String },
    /// A line for another channel, to be queued again.
    Requeue { request: OutgoingMessage },
    /// Nothing to send.
    Nothing,
}

/// The answer to a poll of the channel `requesting` when the next outgoing
/// request is `out`: a chat line of that channel (its tab name without the
/// "YT:" prefix) is sent, a chat line of another channel goes back in the
/// queue, and anything else gives nothing.
pub fn youtube_reply(out: OutgoingMessage, requesting: &String) -> (r: YoutubeReply)
    ensures
        match out {
            OutgoingMessage::Chat { channel, message } => if trim_prefix_all(channel@, "YT:"@) == requesting@ {
                r matches YoutubeReply::Send { channel: c, message: m }
                    && c@ == trim_prefix_all(channel@, "YT:"@) && m == message
            } else {
                r matches YoutubeReply::Requeue { request: OutgoingMessage::Chat { channel: c, message: m } }
                    && c == channel && m == message
            },
            _ => r is Nothing,
        },
{
    match out {
        OutgoingMessage::Chat { channel, message } => {
            let bare = trim_tab_prefix(channel.as_str());
            if str_eq(bare.as_str(), requesting.as_str()) {
                YoutubeReply::Send { channel: bare, message }
            } else {
                YoutubeReply::Requeue { request: OutgoingMessage::Chat { channel, message } }
            }
        },
        _ => YoutubeReply::Nothing,
    }
}

/// The channel a poll asks for: its percent-decoded name, or nothing when
/// that is not UTF-8 (the poll is then answered with nothing).
pub fn requesting_channel(raw: &str) -> (r: Option<String>)
    ensures
        opt_str_view(r) == url_decoded(raw@),
        !raw@.contains('%') ==> opt_str_view(r) == Some(raw@),
{
    url_decode(raw)
}

} // verus!
