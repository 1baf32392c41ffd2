//! The client's chat state and how events from the chat connections change it.

use vstd::prelude::*;
use std::collections::VecDeque;
use crate::name_map::NameMap;
use crate::model::{
    AuthTokens, ChannelStatus, ChannelUser, ChatMessage, ComboCounter, Emote, EmoteRequest, EmoteSource,
    IncomingMessage, MessageType, ProviderMap, ProviderName, UserProfile, YoutubeChannel,
};
use crate::channel::{Channel, ChannelShared, ChannelTransient, Provider, provider_wf};
use crate::emotes::EmoteLoader;
use crate::combo::{history_push, push_history};
use crate::messages::{opt_view, opt_wf};
use crate::text::{
    chars_of, contains_spec, has_infix, lowercase, opt_str_view, str_eq, string_from_chars, to_lowercase,
    trim_end_char, trim_end_spec, trim_start_char, trim_start_spec, white_space,
};

verus! {

/// `s` with every run of whitespace replaced by one space.
pub open spec fn collapse_ws(s: Seq<char>) -> Seq<char>
    decreases s.len(),
{
    if s.len() == 0 {
        s
    } else if white_space(s.last()) {
        if s.len() >= 2 && white_space(s[s.len() - 2]) {
            collapse_ws(s.drop_last())
        } else {
            collapse_ws(s.drop_last()).push(' ')
        }
    } else {
        collapse_ws(s.drop_last()).push(s.last())
    }
}

/// Replaces every run of whitespace with one space.
///
/// Calls `regex::Regex::replace_all` with the pattern `\s+` and the
/// replacement " ". The crate documents `\s` as the Unicode `White_Space`
/// property, the one `char::is_whitespace` tests, and a greedy `+` takes each
/// whole run; the contract states that result.
#[verifier::external_body]
fn collapse_whitespace(s: &str) -> (r: String)
    ensures
        r@ == collapse_ws(s@),
{
    regex::Regex::new("\\s+").unwrap().replace_all(s, " ").into_owned()
}

/// The text left when each link of the form `http…q=target` is replaced by
/// its `target`, as `regex::Regex::replace_all` does with the pattern
/// `http[^\s]*q=([^\s]*)` and the replacement `$1`.
pub uninterp spec fn yt_links_stripped(s: Seq<char>) -> Seq<char>;

/// Replaces YouTube redirect links by the address they lead to.
///
/// Calls `regex::Regex::replace_all` with the pattern `http[^\s]*q=([^\s]*)`
/// and the replacement `$1`; the contract names the result.
#[verifier::external_body]
fn strip_redirect_links(s: &str) -> (r: String)
    ensures
        r@ == yt_links_stripped(s@),
{
    regex::Regex::new("http[^\\s]*q=([^\\s]*)").unwrap().replace_all(s, "$1").into_owned()
}

/// The percent-decoded text, or `None` when the decoded bytes are not UTF-8,
/// as `urlencoding::decode` gives it.
pub uninterp spec fn url_decoded(s: Seq<char>) -> Option<Seq<char>>;

/// Percent-decodes a string.
///
/// Calls `urlencoding::decode`. The contract names the result, and states
/// what its source shows for text without any '%': it comes back unchanged.
#[verifier::external_body]
pub(crate) fn url_decode(s: &str) -> (r: Option<String>)
    ensures
        opt_str_view(r) == url_decoded(s@),
        !s@.contains('%') ==> opt_str_view(r) == Some(s@),
{
    match urlencoding::decode(s) {
        Ok(d) => Some(d.into_owned()),
        Err(_) => None,
    }
}

/// The marker of a YouTube redirect link.
pub open spec fn yt_redirect_marker() -> Seq<char> {
    seq!['h', 't', 't', 'p', 's', ':', '/', '/', 'w', 'w', 'w', '.', 'y', 'o', 'u', 't', 'u', 'b', 'e', '.', 'c', 'o', 'm', '/', 'r', 'e', 'd', 'i', 'r', 'e', 'c', 't']
}

/// The text of an incoming message as it is kept: spaces at both ends
/// dropped, whitespace runs made single spaces, and, on YouTube, redirect
/// links replaced by the decoded address they lead to.
pub open spec fn normalized_text(provider: ProviderName, s: Seq<char>) -> Seq<char> {
    let t = collapse_ws(trim_end_spec(trim_start_spec(s, ' '), ' '));
    if provider == ProviderName::YouTube && contains_spec(t, yt_redirect_marker()) {
        let u = yt_links_stripped(t);
        match url_decoded(u) {
            Some(d) => d,
            None => u,
        }
    } else {
        t
    }
}

/// Normalises the text of an incoming message.
pub fn normalize_message_text(provider: ProviderName, text: &str) -> (r: String)
    ensures
        r@ == normalized_text(provider, text@),
{
    let cs = chars_of(text);
    let a = trim_start_char(cs.as_slice(), ' ');
    let b = trim_end_char(a.as_slice(), ' ');
    let trimmed = string_from_chars(b.as_slice());
    let t = collapse_whitespace(trimmed.as_str());
    if provider == ProviderName::YouTube {
        let tc = chars_of(t.as_str());
        let marker = [
            'h', 't', 't', 'p', 's', ':', '/', '/', 'w', 'w', 'w', '.', 'y', 'o', 'u', 't', 'u', 'b', 'e', '.', 'c', 'o',
            'm', '/', 'r', 'e', 'd', 'i', 'r', 'e', 'c', 't',
        ];
        assert(marker@ == yt_redirect_marker());
        if has_infix(tc.as_slice(), marker.as_slice()) {
            let u = strip_redirect_links(t.as_str());
            return match url_decode(u.as_str()) {
                Some(d) => d,
                None => u,
            };
        }
    }
    t
}

} // verus!

verus! {

/// Every combo count of a history can still be incremented.
pub open spec fn history_bounded(h: Seq<ChatMessage>) -> bool {
    forall|i: int| 0 <= i < h.len() ==> ((#[trigger] h[i]).combo_data matches Some(c) ==> c.count < usize::MAX)
}

/// `u` is the entry for a user with the given names and presence.
pub open spec fn user_is(u: ChannelUser, username: Seq<char>, display: Seq<char>, active: bool) -> bool {
    u.username@ == username && u.display_name@ == display && u.is_active == active
}

/// `after` is `before` with a user recorded under the lower-cased login name,
/// and also under the lower-cased display name when that differs.
pub open spec fn users_recorded(
    before: Map<Seq<char>, ChannelUser>,
    after: Map<Seq<char>, ChannelUser>,
    username: Seq<char>,
    display: Seq<char>,
    active: bool,
) -> bool {
    let ku = lowercase(username);
    let kd = lowercase(display);
    &&& after.dom() == (if kd != ku { before.dom().insert(ku).insert(kd) } else { before.dom().insert(ku) })
    &&& user_is(after[ku], username, display, active)
    &&& kd != ku ==> user_is(after[kd], username, display, active)
    &&& forall|k: Seq<char>| #[trigger] before.contains_key(k) && k != ku && k != kd ==> after[k] == before[k]
}

/// Records a user of a channel under the lower-cased login name and, when it
/// differs, the lower-cased display name.
pub fn record_user(users: &mut NameMap<ChannelUser>, username: &String, display_name: &String, active: bool)
    requires
        old(users).wf(),
    ensures
        final(users).wf(),
        users_recorded(old(users)@, final(users)@, username@, display_name@, active),
{
    let ku = to_lowercase(username.as_str());
    let kd = to_lowercase(display_name.as_str());
    let differs = !str_eq(ku.as_str(), kd.as_str());
    users.insert(ku, ChannelUser { username: username.clone(), display_name: display_name.clone(), is_active: active });
    if differs {
        users.insert(kd, ChannelUser { username: username.clone(), display_name: display_name.clone(), is_active: active });
    }
}

/// The name a chat line's author is listed under in the channel's users.
pub open spec fn display_of(m: ChatMessage) -> Seq<char> {
    match m.profile.display_name {
        Some(d) => d@,
        None => m.username@,
    }
}

/// A line sent by the client or the service itself to every channel of a
/// provider: no author, no channel, not a chat line.
pub open spec fn is_system_line(m: ChatMessage) -> bool {
    m.username@.len() == 0 && m.channel@.len() == 0 && m.msg_type != MessageType::Chat
}

/// The chat state of the client: providers, open channels, their histories,
/// the global emotes, the emote loader's bookkeeping and the credentials.
pub struct ChatState {
    pub providers: ProviderMap<Provider>,
    pub channels: NameMap<Channel>,
    pub channel_tab_list: Vec<String>,
    pub chat_histories: NameMap<VecDeque<ChatMessage>>,
    pub global_emotes: NameMap<Emote>,
    pub emote_loader: EmoteLoader,
    pub auth_tokens: AuthTokens,
}

/// A channel just opened for a YouTube message: named after the channel, open
/// with nothing loaded yet, and no users.
pub open spec fn fresh_youtube_channel(c: Channel, name: String) -> bool {
    &&& c is Youtube
    &&& c.spec_shared().channel_name == name
    &&& !c.spec_shared().show_in_mentions_tab
    &&& !c.spec_shared().show_tab_when_offline
    &&& c.spec_shared().send_history@.len() == 0
    &&& c.spec_shared().send_history_ix is None
    &&& c.spec_shared().transient == Some(ChannelTransient { channel_emotes: None, badge_emotes: None, status: None })
    &&& c.spec_shared().users.wf()
    &&& c.spec_shared().users@ == Map::<Seq<char>, ChannelUser>::empty()
}

impl ChatState {
    /// The maps of the state are well formed.
    pub open spec fn wf(&self) -> bool {
        &&& self.channels.wf()
        &&& forall|k: Seq<char>| #[trigger] self.channels@.contains_key(k) ==> self.channels@[k].wf()
        &&& self.chat_histories.wf()
        &&& self.global_emotes.wf()
        &&& self.emote_loader.loading_emotes.wf()
        &&& forall|p: ProviderName| (#[trigger] self.providers.spec_get(p)) matches Some(v) ==> provider_wf(v)
    }

    /// No combo count in any history is at its limit.
    pub open spec fn combos_bounded(&self) -> bool {
        forall|k: Seq<char>| #[trigger] self.chat_histories@.contains_key(k) ==> history_bounded(self.chat_histories@[k]@)
    }

    /// The history of a channel; empty when it has none yet.
    pub open spec fn history_of(&self, ch: Seq<char>) -> Seq<ChatMessage> {
        if self.chat_histories@.contains_key(ch) {
            self.chat_histories@[ch]@
        } else {
            Seq::empty()
        }
    }

    /// The emotes of a channel, when it is open and they are loaded.
    pub open spec fn channel_emotes_spec(&self, ch: Seq<char>) -> Option<Map<Seq<char>, Emote>> {
        if self.channels@.contains_key(ch) {
            match self.channels@[ch].spec_shared().transient {
                Some(t) => match t.channel_emotes {
                    Some(m) => Some(m@),
                    None => None,
                },
                None => None,
            }
        } else {
            None
        }
    }

    /// The emotes of a provider, when it is known.
    pub open spec fn provider_emotes_spec(&self, p: ProviderName) -> Option<Map<Seq<char>, Emote>> {
        match self.providers.spec_get(p) {
            Some(v) => Some(v.emotes@),
            None => None,
        }
    }
}

/// What opening a YouTube channel for a message does: a message of an unknown
/// YouTube channel opens it and adds its tab; anything else changes nothing.
pub open spec fn youtube_step(s: ChatState, n: ChatState, m: ChatMessage) -> bool {
    if m.provider == ProviderName::YouTube && !s.channels@.contains_key(m.channel@) {
        &&& n.providers == s.providers
        &&& n.chat_histories == s.chat_histories
        &&& n.global_emotes == s.global_emotes
        &&& n.emote_loader == s.emote_loader
        &&& n.auth_tokens == s.auth_tokens
        &&& n.channel_tab_list@ == s.channel_tab_list@.push(m.channel)
        &&& n.channels@.dom() == s.channels@.dom().insert(m.channel@)
        &&& fresh_youtube_channel(n.channels@[m.channel@], m.channel)
        &&& forall|k: Seq<char>| #[trigger] s.channels@.contains_key(k) ==> n.channels@[k] == s.channels@[k]
    } else {
        n == s
    }
}

/// The channels a system line of provider `p` goes to.
pub open spec fn system_targets(s: ChatState, p: ProviderName) -> Set<Seq<char>> {
    Set::new(|k: Seq<char>| s.channels@.contains_key(k) && s.channels@[k].spec_provider() == p)
}

/// What recording a system line does: it goes to the history of every channel
/// of its provider, and nothing else changes.
pub open spec fn system_step(s: ChatState, n: ChatState, m: ChatMessage) -> bool {
    let targets = system_targets(s, m.provider);
    let pe = s.provider_emotes_spec(m.provider);
    &&& n.providers == s.providers
    &&& n.global_emotes == s.global_emotes
    &&& n.emote_loader == s.emote_loader
    &&& n.auth_tokens == s.auth_tokens
    &&& n.channel_tab_list == s.channel_tab_list
    &&& n.channels == s.channels
    &&& n.chat_histories@.dom() == s.chat_histories@.dom().union(targets)
    &&& forall|k: Seq<char>| #[trigger] targets.contains(k) ==> exists|mm: ChatMessage|
        same_message(mm, m)
            && history_push(s.history_of(k), n.chat_histories@[k]@, mm, pe, s.channel_emotes_spec(k), s.global_emotes@)
    &&& forall|k: Seq<char>| #[trigger] s.chat_histories@.contains_key(k) && !targets.contains(k) ==>
        n.chat_histories@[k] == s.chat_histories@[k]
}

/// What recording a line of a channel does: it goes to the channel's history,
/// and its author is recorded as an active user of the channel.
pub open spec fn line_step(s: ChatState, n: ChatState, m: ChatMessage) -> bool {
    let ch = m.channel@;
    let pe = s.provider_emotes_spec(m.provider);
    &&& n.providers == s.providers
    &&& n.global_emotes == s.global_emotes
    &&& n.emote_loader == s.emote_loader
    &&& n.auth_tokens == s.auth_tokens
    &&& n.channel_tab_list == s.channel_tab_list
    &&& n.channels@.dom() == s.channels@.dom()
    &&& forall|k: Seq<char>| #[trigger] s.channels@.contains_key(k) && k != ch ==> n.channels@[k] == s.channels@[k]
    &&& s.channels@.contains_key(ch) ==> {
        let c = s.channels@[ch];
        let nc = n.channels@[ch];
        &&& nc == c.with_shared(ChannelShared { users: nc.spec_shared().users, ..c.spec_shared() })
        &&& nc.spec_shared().users.wf()
        &&& users_recorded(c.spec_shared().users@, nc.spec_shared().users@, m.username@, display_of(m), true)
    }
    &&& n.chat_histories@.dom() == s.chat_histories@.dom().insert(ch)
    &&& history_push(s.history_of(ch), n.chat_histories@[ch]@, m, pe, s.channel_emotes_spec(ch), s.global_emotes@)
    &&& forall|k: Seq<char>| #[trigger] s.chat_histories@.contains_key(k) && k != ch ==>
        n.chat_histories@[k] == s.chat_histories@[k]
}

/// What recording a chat line does: a system line goes to every channel of
/// its provider, any other line to its own channel.
pub open spec fn chat_step(s: ChatState, n: ChatState, m: ChatMessage) -> bool {
    if is_system_line(m) {
        system_step(s, n, m)
    } else {
        line_step(s, n, m)
    }
}

} // verus!

verus! {

fn clone_strings(v: &Vec<String>) -> (r: Vec<String>)
    ensures
        r@ == v@,
{
    let mut r: Vec<String> = Vec::new();
    let mut i: usize = 0;
    while i < v.len()
        invariant
            i <= v@.len(),
            r@ == v@.take(i as int),
        decreases v@.len() - i,
    {
        r.push(v[i].clone());
        assert(v@.take(i + 1) == v@.take(i as int).push(v@[i as int]));
        i += 1;
    }
    assert(v@.take(v@.len() as int) == v@);
    r
}

fn clone_combo_users(v: &Vec<(String, (u8, u8, u8))>) -> (r: Vec<(String, (u8, u8, u8))>)
    ensures
        r@ == v@,
{
    let mut r: Vec<(String, (u8, u8, u8))> = Vec::new();
    let mut i: usize = 0;
    while i < v.len()
        invariant
            i <= v@.len(),
            r@ == v@.take(i as int),
        decreases v@.len() - i,
    {
        r.push((v[i].0.clone(), v[i].1));
        assert(v@.take(i + 1) == v@.take(i as int).push(v@[i as int]));
        i += 1;
    }
    assert(v@.take(v@.len() as int) == v@);
    r
}

/// The badges of a profile, as text.
pub open spec fn badges_view(b: Option<Vec<String>>) -> Option<Seq<String>> {
    match b {
        Some(v) => Some(v@),
        None => None,
    }
}

/// Two messages hold the same content.
pub open spec fn same_message(a: ChatMessage, b: ChatMessage) -> bool {
    &&& a.provider == b.provider
    &&& a.channel == b.channel
    &&& a.username == b.username
    &&& a.timestamp == b.timestamp
    &&& a.message == b.message
    &&& badges_view(a.profile.badges) == badges_view(b.profile.badges)
    &&& a.profile.display_name == b.profile.display_name
    &&& a.profile.color == b.profile.color
    &&& crate::combo::combo_opt_view(a.combo_data) == crate::combo::combo_opt_view(b.combo_data)
    &&& a.is_removed == b.is_removed
    &&& a.msg_type == b.msg_type
}

impl ChatMessage {
    /// A copy of the message.
    pub fn duplicate(&self) -> (r: ChatMessage)
        ensures
            same_message(r, *self),
    {
        let badges = match &self.profile.badges {
            Some(b) => Some(clone_strings(b)),
            None => None,
        };
        let display_name = match &self.profile.display_name {
            Some(d) => Some(d.clone()),
            None => None,
        };
        let combo_data = match &self.combo_data {
            Some(c) => Some(ComboCounter {
                word: c.word.clone(),
                count: c.count,
                is_new: c.is_new,
                is_end: c.is_end,
                users: clone_combo_users(&c.users),
            }),
            None => None,
        };
        let is_removed = match &self.is_removed {
            Some(x) => Some(x.clone()),
            None => None,
        };
        ChatMessage {
            provider: self.provider,
            channel: self.channel.clone(),
            username: self.username.clone(),
            timestamp: self.timestamp,
            message: self.message.clone(),
            profile: UserProfile { badges, display_name, color: self.profile.color },
            combo_data,
            is_removed,
            msg_type: self.msg_type,
        }
    }
}

/// Makes sure a channel has a history, giving its position.
fn ensure_history(hs: &mut NameMap<VecDeque<ChatMessage>>, ch: &String) -> (i: usize)
    requires
        old(hs).wf(),
    ensures
        final(hs).wf(),
        i < final(hs).key_list().len(),
        final(hs).key_list()[i as int] == ch@,
        final(hs)@.dom() == old(hs)@.dom().insert(ch@),
        final(hs)@[ch@]@ == (if old(hs)@.contains_key(ch@) { old(hs)@[ch@]@ } else { Seq::<ChatMessage>::empty() }),
        forall|k: Seq<char>| #[trigger] old(hs)@.contains_key(k) ==> final(hs)@[k] == old(hs)@[k],
{
    match hs.position(ch.as_str()) {
        Some(i) => {
            assert(hs@.dom() =~= hs@.dom().insert(ch@));
            i
        },
        None => {
            hs.insert(ch.clone(), VecDeque::new());
            let n = hs.len();
            proof {
                hs.lemma_wf();
            }
            n - 1
        },
    }
}

/// The emotes of a provider.
fn provider_emotes_of<'a>(providers: &'a ProviderMap<Provider>, p: ProviderName) -> (r: Option<&'a NameMap<Emote>>)
    requires
        forall|q: ProviderName| (#[trigger] providers.spec_get(q)) matches Some(v) ==> provider_wf(v),
    ensures
        opt_wf(r),
        opt_view(r) == match providers.spec_get(p) {
            Some(v) => Some(v.emotes@),
            None => None,
        },
{
    match providers.get(p) {
        Some(v) => {
            assert(provider_wf(*v));
            Some(&v.emotes)
        },
        None => None,
    }
}

/// The emotes of an open channel, when loaded.
fn channel_emotes_of<'a>(channels: &'a NameMap<Channel>, ch: &str) -> (r: Option<&'a NameMap<Emote>>)
    requires
        channels.wf(),
        forall|k: Seq<char>| #[trigger] channels@.contains_key(k) ==> channels@[k].wf(),
    ensures
        opt_wf(r),
        opt_view(r) == (if channels@.contains_key(ch@) {
            match channels@[ch@].spec_shared().transient {
                Some(t) => match t.channel_emotes {
                    Some(m) => Some(m@),
                    None => None,
                },
                None => None,
            }
        } else {
            None
        }),
{
    match channels.get(ch) {
        Some(c) => {
            assert(c.wf());
            match c.transient() {
                Some(t) => match &t.channel_emotes {
                    Some(m) => Some(m),
                    None => None,
                },
                None => None,
            }
        },
        None => None,
    }
}

} // verus!

verus! {

impl ChatState {
    /// Opens the channel of a YouTube message when it is not open yet.
    pub fn add_youtube_channel_if_new(&mut self, m: &ChatMessage)
        requires
            old(self).wf(),
        ensures
            final(self).wf(),
            youtube_step(*old(self), *final(self), *m),
    {
        let ghost s = *self;
        if m.provider == ProviderName::YouTube && !self.channels.contains_key(m.channel.as_str()) {
            self.channel_tab_list.push(m.channel.clone());
            let shared = ChannelShared {
                channel_name: m.channel.clone(),
                show_in_mentions_tab: false,
                show_tab_when_offline: false,
                send_history: VecDeque::new(),
                send_history_ix: None,
                transient: Some(ChannelTransient { channel_emotes: None, badge_emotes: None, status: None }),
                users: NameMap::new(),
            };
            self.channels.insert(m.channel.clone(), Channel::Youtube { youtube: YoutubeChannel {}, shared });
        }
    }

    /// Records a system line in the history of every channel of its provider.
    fn record_system_line(&mut self, m: &ChatMessage)
        requires
            old(self).wf(),
            old(self).combos_bounded(),
        ensures
            final(self).wf(),
            system_step(*old(self), *final(self), *m),
    {
        let ghost s = *self;
        let ghost targets = system_targets(s, m.provider);
        proof {
            self.channels.lemma_wf();
        }
        let ghost mut done: Set<Seq<char>> = Set::empty();
        let n = self.channels.len();
        let mut j: usize = 0;
        while j < n
            invariant
                self.wf(),
                s.wf(),
                s.combos_bounded(),
                j <= n,
                n == s.channels.key_list().len(),
                self.providers == s.providers,
                self.global_emotes == s.global_emotes,
                self.emote_loader == s.emote_loader,
                self.auth_tokens == s.auth_tokens,
                self.channel_tab_list == s.channel_tab_list,
                self.channels == s.channels,
                s.channels.key_list().no_duplicates(),
                forall|k: Seq<char>| #[trigger] s.channels@.contains_key(k) <==> s.channels.key_list().contains(k),
                forall|q: int| 0 <= q < n ==> #[trigger] s.channels@[s.channels.key_list()[q]] == s.channels.value_list()[q],
                targets == system_targets(s, m.provider),
                done.subset_of(targets),
                forall|q: int| 0 <= q < j ==> (targets.contains(#[trigger] s.channels.key_list()[q]) ==> done.contains(s.channels.key_list()[q])),
                forall|q: int| j <= q < n ==> !done.contains(#[trigger] s.channels.key_list()[q]),
                self.chat_histories@.dom() == s.chat_histories@.dom().union(done),
                forall|k: Seq<char>| #[trigger] done.contains(k) ==> exists|mm: ChatMessage|
                    same_message(mm, *m)
                        && history_push(s.history_of(k), self.chat_histories@[k]@, mm, s.provider_emotes_spec(m.provider), s.channel_emotes_spec(k), s.global_emotes@),
                forall|k: Seq<char>| #[trigger] s.chat_histories@.contains_key(k) && !done.contains(k) ==>
                    self.chat_histories@[k] == s.chat_histories@[k],
            decreases n - j,
        {
            let c = self.channels.value_at(j);
            if c.provider() == m.provider {
                let name = self.channels.key_at(j).clone();
                let ghost key = name@;
                assert(s.channels@[s.channels.key_list()[j as int]] == s.channels.value_list()[j as int]);
                assert(s.channels.key_list().contains(key));
                assert(s.channels@.contains_key(key));
                assert(*c == s.channels.value_list()[j as int]);
                assert(s.channels@[key].spec_provider() == m.provider);
                assert(targets.contains(key));
                let ghost before = *self;
                let hi = ensure_history(&mut self.chat_histories, &name);
                proof {
                    self.chat_histories.lemma_wf();
                }
                let pe = provider_emotes_of(&self.providers, m.provider);
                let ce = channel_emotes_of(&self.channels, name.as_str());
                let hist = self.chat_histories.value_mut_at(hi);
                let mm = m.duplicate();
                let ghost mmv = mm;
                assert(history_bounded(s.history_of(key))) by {
                    if s.chat_histories@.contains_key(key) {
                    }
                }
                push_history(hist, mm, pe, ce, &self.global_emotes);
                proof {
                    assert(!done.contains(key));
                    done = done.insert(key);
                    assert forall|k: Seq<char>| #[trigger] done.contains(k) implies exists|mm2: ChatMessage|
                        same_message(mm2, *m)
                            && history_push(s.history_of(k), self.chat_histories@[k]@, mm2, s.provider_emotes_spec(m.provider), s.channel_emotes_spec(k), s.global_emotes@) by {
                        if k == key {
                            assert(same_message(mmv, *m));
                        } else {
                            assert(before.chat_histories@.contains_key(k));
                            assert(self.chat_histories@[k] == before.chat_histories@[k]);
                        }
                    }
                    assert(self.chat_histories@.dom() =~= s.chat_histories@.dom().union(done));
                    assert forall|k: Seq<char>| #[trigger] s.chat_histories@.contains_key(k) && !done.contains(k) implies
                        self.chat_histories@[k] == s.chat_histories@[k] by {
                        assert(before.chat_histories@.contains_key(k));
                        assert(before.chat_histories@[k] == s.chat_histories@[k]);
                    }
                    assert forall|q: int| j + 1 <= q < n implies !done.contains(#[trigger] s.channels.key_list()[q]) by {
                        assert(s.channels.key_list()[q] != s.channels.key_list()[j as int]);
                    }
                }
            } else {
                proof {
                    assert(!targets.contains(s.channels.key_list()[j as int]));
                }
            }
            j += 1;
        }
        proof {
            assert(done =~= targets) by {
                assert forall|k: Seq<char>| targets.contains(k) implies done.contains(k) by {
                    assert(s.channels.key_list().contains(k));
                    let q = choose|q: int| 0 <= q < n && s.channels.key_list()[q] == k;
                }
            }
        }
    }

    /// Records a chat line: a system line in every channel of its provider,
    /// any other line in its channel, with its author as an active user.
    pub fn record_chat_message(&mut self, m: ChatMessage)
        requires
            old(self).wf(),
            old(self).combos_bounded(),
        ensures
            final(self).wf(),
            chat_step(*old(self), *final(self), m),
    {
        let ghost s = *self;
        if m.username.as_str().is_empty() && m.channel.as_str().is_empty() && m.msg_type != MessageType::Chat {
            self.record_system_line(&m);
        } else {
            let channel = m.channel.clone();
            if let Some(ci) = self.channels.position(channel.as_str()) {
                proof {
                    self.channels.lemma_wf();
                }
                let display = match &m.profile.display_name {
                    Some(d) => d.clone(),
                    None => m.username.clone(),
                };
                let c = self.channels.value_mut_at(ci);
                let shared = c.shared_mut();
                record_user(&mut shared.users, &m.username, &display, true);
                assert(self.channels@.dom() =~= s.channels@.dom());
            } else {
                assert(self.channels@.dom() =~= s.channels@.dom());
            }
            let ghost s2 = *self;
            assert(forall|k: Seq<char>| #[trigger] s.channels@.contains_key(k) && k != channel@ ==> self.channels@[k] == s.channels@[k]);
            assert(s2.channel_emotes_spec(channel@) == s.channel_emotes_spec(channel@));
            let hi = ensure_history(&mut self.chat_histories, &channel);
            proof {
                self.chat_histories.lemma_wf();
            }
            let pe = provider_emotes_of(&self.providers, m.provider);
            let ce = channel_emotes_of(&self.channels, channel.as_str());
            let ghost s3 = *self;
            assert(s3.history_of(channel@) == s.history_of(channel@));
            assert(history_bounded(s.history_of(channel@)));
            let hist = self.chat_histories.value_mut_at(hi);
            push_history(hist, m, pe, ce, &self.global_emotes);
            assert(self.chat_histories@.dom() =~= s.chat_histories@.dom().insert(channel@));
            assert(line_step(s, *self, m));
        }
    }
}

} // verus!

verus! {

/// What a status update does: an open channel takes the new status.
pub open spec fn status_step(s: ChatState, n: ChatState, ch: Seq<char>, status: Option<ChannelStatus>) -> bool {
    if s.channels@.contains_key(ch) && s.channels@[ch].spec_shared().transient is Some {
        let c = s.channels@[ch];
        let t = c.spec_shared().transient->0;
        &&& n.channels@ == s.channels@.insert(ch, c.with_shared(ChannelShared {
            transient: Some(ChannelTransient { status: status, ..t }),
            ..c.spec_shared()
        }))
        &&& n.providers == s.providers
        &&& n.chat_histories == s.chat_histories
        &&& n.global_emotes == s.global_emotes
        &&& n.emote_loader == s.emote_loader
        &&& n.auth_tokens == s.auth_tokens
        &&& n.channel_tab_list == s.channel_tab_list
    } else {
        n == s
    }
}

/// The fields an emote learned from a message starts with.
pub open spec fn blank_rest(e: Emote) -> bool {
    &&& e.display_name is None
    &&& e.color is None
    &&& e.frame_delays is None
    &&& e.loaded == crate::model::EmoteStatus::NotLoaded
    &&& e.duration_msec == 0
    &&& e.extension is None
    &&& !e.zero_width
    &&& e.css_anim is None
    &&& e.priority == 0
    &&& !e.hidden
    &&& e.channel_name@.len() == 0
}

/// `e` is the emote a message tells of, by id and name: on Twitch by its name
/// with the image fetched by id; on YouTube keyed by its id, with the name
/// giving the image address.
pub open spec fn msg_emote_for(e: Emote, provider: ProviderName, id: Seq<char>, name: Seq<char>) -> bool {
    &&& blank_rest(e)
    &&& match provider {
        ProviderName::Twitch => e.name@ == name && e.id@ == id && e.url@.len() == 0
            && e.path@ == seq!['t', 'w', 'i', 't', 'c', 'h', '/'] && e.source == EmoteSource::Twitch,
        ProviderName::YouTube => e.name@ == id && e.id@ == id && e.url@ == name
            && e.path@ == seq!['y', 'o', 'u', 't', 'u', 'b', 'e', '/'] && e.source == EmoteSource::Youtube,
        ProviderName::DGG => false,
    }
}

/// One emote of a message taken in: unless its name is known already, a
/// Twitch emote is added under its name and a YouTube emote under its id.
pub open spec fn msg_emote_step(
    before: Map<Seq<char>, Emote>,
    after: Map<Seq<char>, Emote>,
    provider: ProviderName,
    id: Seq<char>,
    name: Seq<char>,
) -> bool {
    if provider == ProviderName::DGG || before.contains_key(name) {
        after == before
    } else {
        let key = if provider == ProviderName::Twitch { name } else { id };
        &&& after.dom() == before.dom().insert(key)
        &&& msg_emote_for(after[key], provider, id, name)
        &&& forall|k: Seq<char>| #[trigger] before.contains_key(k) && k != key ==> after[k] == before[k]
    }
}

/// The emotes of a message, as (id, name) pairs, taken in one after another.
pub open spec fn msg_emotes_applied(
    before: Map<Seq<char>, Emote>,
    after: Map<Seq<char>, Emote>,
    provider: ProviderName,
    ids: Seq<(String, String)>,
) -> bool
    decreases ids.len(),
{
    if ids.len() == 0 {
        after == before
    } else {
        exists|mid: Map<Seq<char>, Emote>|
            msg_emotes_applied(before, mid, provider, ids.drop_last())
                && #[trigger] msg_emote_step(mid, after, provider, ids.last().0@, ids.last().1@)
    }
}

/// The request that fetches a Twitch channel's badge and emote lists.
pub open spec fn is_badge_list_request(r: EmoteRequest, room_id: Seq<char>, channel: Seq<char>, token: Seq<char>) -> bool {
    r matches EmoteRequest::TwitchBadgeEmoteListRequest { channel_id, channel_name, token: t, force_redownload }
        && channel_id@ == room_id && channel_name@ == channel && t@ == token && !force_redownload
}

/// The request that fetches one of the user's Twitch emote sets.
pub open spec fn is_emote_set_request(r: EmoteRequest, set: Seq<char>, token: Seq<char>) -> bool {
    r matches EmoteRequest::TwitchEmoteSetRequest { token: t, emote_set_id, force_redownload }
        && emote_set_id@ == set && t@ == token && !force_redownload
}

/// Messages of `username` in `h` marked as deleted; the others unchanged.
pub open spec fn removed_marked(h: Seq<ChatMessage>, n: Seq<ChatMessage>, username: Seq<char>) -> bool {
    &&& n.len() == h.len()
    &&& forall|i: int| 0 <= i < h.len() ==> #[trigger] n[i] == if h[i].username@ == username {
        ChatMessage { is_removed: n[i].is_removed, ..h[i] }
    } else {
        h[i]
    }
    &&& forall|i: int| 0 <= i < h.len() && h[i].username@ == username ==>
        opt_str_view(#[trigger] n[i].is_removed) == Some(deleted_text())
}

/// The text shown in place of a deleted message.
pub open spec fn deleted_text() -> Seq<char> {
    seq!['<', 'm', 'e', 's', 's', 'a', 'g', 'e', ' ', 'd', 'e', 'l', 'e', 't', 'e', 'd', '>']
}

} // verus!

verus! {

/// What taking in the emotes a message names does.
pub open spec fn msg_emotes_state_step(s: ChatState, n: ChatState, provider: ProviderName, emote_ids: Vec<(String, String)>) -> bool {
    &&& n.channels == s.channels
    &&& n.chat_histories == s.chat_histories
    &&& n.global_emotes == s.global_emotes
    &&& n.emote_loader == s.emote_loader
    &&& n.auth_tokens == s.auth_tokens
    &&& n.channel_tab_list == s.channel_tab_list
    &&& forall|q: ProviderName| q != provider ==> #[trigger] n.providers.spec_get(q) == s.providers.spec_get(q)
    &&& match s.providers.spec_get(provider) {
        Some(p) => {
            &&& n.providers.spec_get(provider) matches Some(np)
            &&& np == Provider { emotes: np.emotes, ..p }
            &&& if provider == ProviderName::DGG {
                np.emotes == p.emotes
            } else {
                msg_emotes_applied(p.emotes@, np.emotes@, provider, emote_ids@)
            }
        },
        None => n.providers.spec_get(provider) is None,
    }
}

/// What learning a Twitch channel's room id does, with the request it gives.
pub open spec fn room_id_step(s: ChatState, n: ChatState, channel: String, room_id: String, r: Option<EmoteRequest>) -> bool {
    if s.channels@.contains_key(channel@) && s.channels@[channel@] is Twitch {
        let c = s.channels@[channel@];
        &&& n.channels@ == s.channels@.insert(
            channel@,
            Channel::Twitch { twitch: crate::model::TwitchChannel { room_id: Some(room_id) }, shared: c.spec_shared() },
        )
        &&& n.channels.key_list() == s.channels.key_list()
        &&& n.providers == s.providers
        &&& n.chat_histories == s.chat_histories
        &&& n.global_emotes == s.global_emotes
        &&& n.emote_loader == s.emote_loader
        &&& n.auth_tokens == s.auth_tokens
        &&& n.channel_tab_list == s.channel_tab_list
        &&& r matches Some(q) && is_badge_list_request(q, room_id@, c.spec_shared().channel_name@, s.auth_tokens.twitch_auth_token@)
    } else {
        n == s && r is None
    }
}

/// What learning the user's emote sets does, with the requests it gives.
pub open spec fn emote_sets_step(s: ChatState, n: ChatState, provider: ProviderName, emote_sets: Vec<String>, r: Vec<EmoteRequest>) -> bool {
    if provider == ProviderName::Twitch && s.providers.twitch is Some {
        let p = s.providers.twitch->0;
        &&& n.providers == ProviderMap { twitch: Some(Provider { my_emote_sets: emote_sets, ..p }), ..s.providers }
        &&& n.channels == s.channels
        &&& n.chat_histories == s.chat_histories
        &&& n.global_emotes == s.global_emotes
        &&& n.emote_loader == s.emote_loader
        &&& n.auth_tokens == s.auth_tokens
        &&& n.channel_tab_list == s.channel_tab_list
        &&& r@.len() == emote_sets@.len()
        &&& forall|i: int| 0 <= i < r@.len() ==>
            is_emote_set_request(#[trigger] r@[i], emote_sets@[i]@, s.auth_tokens.twitch_auth_token@)
    } else {
        n == s && r@.len() == 0
    }
}

/// What a user joining or leaving a channel does.
pub open spec fn presence_step(s: ChatState, n: ChatState, channel: String, username: String, display_name: String, active: bool) -> bool {
    if s.channels@.contains_key(channel@) {
        let c = s.channels@[channel@];
        let nc = n.channels@[channel@];
        &&& n.channels@ == s.channels@.insert(channel@, nc)
        &&& n.channels.key_list() == s.channels.key_list()
        &&& nc == c.with_shared(ChannelShared { users: nc.spec_shared().users, ..c.spec_shared() })
        &&& users_recorded(c.spec_shared().users@, nc.spec_shared().users@, username@, display_name@, active)
        &&& n.providers == s.providers
        &&& n.chat_histories == s.chat_histories
        &&& n.global_emotes == s.global_emotes
        &&& n.emote_loader == s.emote_loader
        &&& n.auth_tokens == s.auth_tokens
        &&& n.channel_tab_list == s.channel_tab_list
    } else {
        n == s
    }
}

/// What a user being muted in a channel does.
pub open spec fn muted_step(s: ChatState, n: ChatState, channel: String, username: String) -> bool {
    if s.chat_histories@.contains_key(channel@) {
        &&& n.chat_histories@.dom() == s.chat_histories@.dom()
        &&& forall|k: Seq<char>| #[trigger] s.chat_histories@.contains_key(k) && k != channel@ ==>
            n.chat_histories@[k] == s.chat_histories@[k]
        &&& removed_marked(s.chat_histories@[channel@]@, n.chat_histories@[channel@]@, username@)
        &&& n.channels == s.channels
        &&& n.providers == s.providers
        &&& n.global_emotes == s.global_emotes
        &&& n.emote_loader == s.emote_loader
        &&& n.auth_tokens == s.auth_tokens
        &&& n.channel_tab_list == s.channel_tab_list
    } else {
        n == s
    }
}

/// Takes in the emotes named in a message, one after another.
fn apply_msg_emotes(emotes: &mut NameMap<Emote>, provider: ProviderName, ids: &Vec<(String, String)>)
    requires
        old(emotes).wf(),
        provider != ProviderName::DGG,
    ensures
        final(emotes).wf(),
        msg_emotes_applied(old(emotes)@, final(emotes)@, provider, ids@),
{
    let ghost start = emotes@;
    let twitch_path = ['t', 'w', 'i', 't', 'c', 'h', '/'];
    let youtube_path = ['y', 'o', 'u', 't', 'u', 'b', 'e', '/'];
    let mut k: usize = 0;
    assert(ids@.take(0).len() == 0);
    while k < ids.len()
        invariant
            emotes.wf(),
            k <= ids@.len(),
            provider != ProviderName::DGG,
            twitch_path@ == seq!['t', 'w', 'i', 't', 'c', 'h', '/'],
            youtube_path@ == seq!['y', 'o', 'u', 't', 'u', 'b', 'e', '/'],
            msg_emotes_applied(start, emotes@, provider, ids@.take(k as int)),
        decreases ids@.len() - k,
    {
        let ghost mid = emotes@;
        let id = &ids[k].0;
        let name = &ids[k].1;
        if !emotes.contains_key(name.as_str()) {
            match provider {
                ProviderName::Twitch => {
                    let mut e = Emote::default();
                    e.name = name.clone();
                    e.id = id.clone();
                    e.path = string_from_chars(twitch_path.as_slice());
                    e.source = EmoteSource::Twitch;
                    emotes.insert(name.clone(), e);
                },
                ProviderName::YouTube => {
                    let mut e = Emote::default();
                    e.id = id.clone();
                    e.name = id.clone();
                    e.url = name.clone();
                    e.path = string_from_chars(youtube_path.as_slice());
                    e.source = EmoteSource::Youtube;
                    emotes.insert(id.clone(), e);
                },
                ProviderName::DGG => {},
            }
        }
        proof {
            assert(ids@.take(k + 1).drop_last() == ids@.take(k as int));
            assert(ids@.take(k + 1).last() == ids@[k as int]);
            assert(msg_emote_step(mid, emotes@, provider, ids@[k as int].0@, ids@[k as int].1@)) by {
                if !(provider == ProviderName::DGG || mid.contains_key(ids@[k as int].1@)) {
                    let key = if provider == ProviderName::Twitch { ids@[k as int].1@ } else { ids@[k as int].0@ };
                    assert(emotes@.dom() =~= mid.dom().insert(key));
                }
            }
            assert(msg_emotes_applied(start, mid, provider, ids@.take(k + 1).drop_last()));
        }
        k += 1;
    }
    assert(ids@.take(ids@.len() as int) == ids@);
}

impl ChatState {
    /// Sets the live status of an open channel.
    pub fn set_channel_status(&mut self, channel: &String, status: Option<ChannelStatus>)
        requires
            old(self).wf(),
        ensures
            final(self).wf(),
            status_step(*old(self), *final(self), channel@, status),
    {
        if let Some(ci) = self.channels.position(channel.as_str()) {
            proof {
                self.channels.lemma_wf();
            }
            let open = self.channels.value_at(ci).transient().is_some();
            if open {
                let c = self.channels.value_mut_at(ci);
                let shared = c.shared_mut();
                match &mut shared.transient {
                    Some(t) => {
                        t.status = status;
                    },
                    None => {},
                }
            }
        }
    }

    /// Takes in the emotes a message names, as (id, name) pairs.
    pub fn add_msg_emotes(&mut self, provider: ProviderName, emote_ids: Vec<(String, String)>)
        requires
            old(self).wf(),
        ensures
            final(self).wf(),
            msg_emotes_state_step(*old(self), *final(self), provider, emote_ids),

    {
        assert(self.providers.spec_get(ProviderName::Twitch) matches Some(v) ==> provider_wf(v));
        assert(self.providers.spec_get(ProviderName::YouTube) matches Some(v) ==> provider_wf(v));
        assert(self.providers.spec_get(ProviderName::DGG) matches Some(v) ==> provider_wf(v));
        match provider {
            ProviderName::Twitch => match &mut self.providers.twitch {
                Some(p) => apply_msg_emotes(&mut p.emotes, provider, &emote_ids),
                None => {},
            },
            ProviderName::YouTube => match &mut self.providers.youtube {
                Some(p) => apply_msg_emotes(&mut p.emotes, provider, &emote_ids),
                None => {},
            },
            ProviderName::DGG => {},
        }
        assert forall|q: ProviderName| (#[trigger] self.providers.spec_get(q)) is Some implies provider_wf(self.providers.spec_get(q)->0) by {
            match q {
                ProviderName::Twitch => {},
                ProviderName::DGG => {},
                ProviderName::YouTube => {},
            }
        }
    }

    /// Records the room id of a Twitch channel, and gives the request for its
    /// badge and emote lists.
    pub fn set_room_id(&mut self, channel: &String, room_id: String) -> (r: Option<EmoteRequest>)
        requires
            old(self).wf(),
        ensures
            final(self).wf(),
            room_id_step(*old(self), *final(self), *channel, room_id, r),

    {
        if let Some(ci) = self.channels.position(channel.as_str()) {
            proof {
                self.channels.lemma_wf();
            }
            let is_twitch = match self.channels.value_at(ci) {
                Channel::Twitch { .. } => true,
                _ => false,
            };
            if is_twitch {
                let token = self.auth_tokens.twitch_auth_token.clone();
                let c = self.channels.value_mut_at(ci);
                match c {
                    Channel::Twitch { twitch, shared } => {
                        twitch.room_id = Some(room_id.clone());
                        let req = EmoteRequest::TwitchBadgeEmoteListRequest {
                            channel_id: room_id,
                            channel_name: shared.channel_name.clone(),
                            token,
                            force_redownload: false,
                        };
                        return Some(req);
                    },
                    _ => {},
                }
            }
        }
        None
    }

    /// Records the user's Twitch emote sets, and gives a request for each.
    pub fn set_emote_sets(&mut self, provider: ProviderName, emote_sets: Vec<String>) -> (r: Vec<EmoteRequest>)
        requires
            old(self).wf(),
        ensures
            final(self).wf(),
            emote_sets_step(*old(self), *final(self), provider, emote_sets, r),

    {
        let mut reqs: Vec<EmoteRequest> = Vec::new();
        if provider == ProviderName::Twitch {
            assert(self.providers.spec_get(ProviderName::Twitch) matches Some(v) ==> provider_wf(v));
            assert(self.providers.spec_get(ProviderName::YouTube) matches Some(v) ==> provider_wf(v));
            assert(self.providers.spec_get(ProviderName::DGG) matches Some(v) ==> provider_wf(v));
            match &mut self.providers.twitch {
                Some(p) => {
                    let mut i: usize = 0;
                    while i < emote_sets.len()
                        invariant
                            i <= emote_sets@.len(),
                            reqs@.len() == i,
                            forall|j: int| 0 <= j < i ==>
                                is_emote_set_request(#[trigger] reqs@[j], emote_sets@[j]@, self.auth_tokens.twitch_auth_token@),
                        decreases emote_sets@.len() - i,
                    {
                        reqs.push(EmoteRequest::TwitchEmoteSetRequest {
                            token: self.auth_tokens.twitch_auth_token.clone(),
                            emote_set_id: emote_sets[i].clone(),
                            force_redownload: false,
                        });
                        i += 1;
                    }
                    p.my_emote_sets = emote_sets;
                },
                None => {},
            }
            assert forall|q: ProviderName| (#[trigger] self.providers.spec_get(q)) is Some implies provider_wf(self.providers.spec_get(q)->0) by {
                match q {
                    ProviderName::Twitch => {},
                    ProviderName::DGG => {},
                    ProviderName::YouTube => {},
                }
            }
        }
        reqs
    }

    /// Records a user joining or leaving a channel.
    pub fn set_user_presence(&mut self, channel: &String, username: &String, display_name: &String, active: bool)
        requires
            old(self).wf(),
        ensures
            final(self).wf(),
            presence_step(*old(self), *final(self), *channel, *username, *display_name, active),

    {
        if let Some(ci) = self.channels.position(channel.as_str()) {
            proof {
                self.channels.lemma_wf();
            }
            let c = self.channels.value_mut_at(ci);
            let shared = c.shared_mut();
            record_user(&mut shared.users, username, display_name, active);
        }
    }

    /// Marks every kept message of a user in a channel as deleted.
    pub fn mark_user_messages_removed(&mut self, channel: &String, username: &String)
        requires
            old(self).wf(),
        ensures
            final(self).wf(),
            muted_step(*old(self), *final(self), *channel, *username),

    {
        let ghost s = *self;
        if let Some(hi) = self.chat_histories.position(channel.as_str()) {
            proof {
                self.chat_histories.lemma_wf();
            }
            let deleted = ['<', 'm', 'e', 's', 's', 'a', 'g', 'e', ' ', 'd', 'e', 'l', 'e', 't', 'e', 'd', '>'];
            assert(deleted@ == deleted_text());
            let hist = self.chat_histories.value_mut_at(hi);
            let ghost h = hist@;
            let mut out: VecDeque<ChatMessage> = VecDeque::new();
            let n = hist.len();
            let mut k: usize = 0;
            while k < n
                invariant
                    n == h.len(),
                    k <= n,
                    hist@ == h.skip(k as int),
                    deleted@ == deleted_text(),
                    out@.len() == k,
                    forall|i: int| 0 <= i < k ==> #[trigger] out@[i] == if h[i].username@ == username@ {
                        ChatMessage { is_removed: out@[i].is_removed, ..h[i] }
                    } else {
                        h[i]
                    },
                    forall|i: int| 0 <= i < k && h[i].username@ == username@ ==>
                        opt_str_view(#[trigger] out@[i].is_removed) == Some(deleted_text()),
                decreases n - k,
            {
                let m = hist.pop_front().unwrap();
                assert(m == h[k as int]);
                assert(hist@ == h.skip(k + 1));
                let m2 = if m.username == *username {
                    ChatMessage { is_removed: Some(string_from_chars(deleted.as_slice())), ..m }
                } else {
                    m
                };
                out.push_back(m2);
                k += 1;
            }
            *hist = out;
            proof {
                assert(removed_marked(h, hist@, username@));
            }
        }
        proof {
            if s.chat_histories@.contains_key(channel@) {
                assert(self.chat_histories@.dom() =~= s.chat_histories@.dom());
            }
        }
    }
}

} // verus!

verus! {

/// What an event from a chat connection does to the state, and the emote
/// loader requests it gives.
pub open spec fn incoming_step(s: ChatState, n: ChatState, x: IncomingMessage, r: Seq<EmoteRequest>) -> bool {
    match x {
        IncomingMessage::PrivMsg { message } => {
            &&& r.len() == 0
            &&& exists|s1: ChatState, mm: ChatMessage|
                #![trigger youtube_step(s, s1, mm), chat_step(s1, n, mm)]
                mm.message@ == normalized_text(message.provider, message.message@)
                    && mm == (ChatMessage { message: mm.message, ..message })
                    && youtube_step(s, s1, mm)
                    && chat_step(s1, n, mm)
        },
        IncomingMessage::StreamingStatus { channel, status } => r.len() == 0 && status_step(s, n, channel@, status),
        IncomingMessage::MsgEmotes { provider, emote_ids } => r.len() == 0 && msg_emotes_state_step(s, n, provider, emote_ids),
        IncomingMessage::RoomId { channel, room_id } => {
            &&& r.len() <= 1
            &&& exists|q: Option<EmoteRequest>| #[trigger] room_id_step(s, n, channel, room_id, q)
                && r == match q {
                    Some(e) => seq![e],
                    None => Seq::<EmoteRequest>::empty(),
                }
        },
        IncomingMessage::EmoteSets { provider, emote_sets } => exists|v: Vec<EmoteRequest>|
            #[trigger] emote_sets_step(s, n, provider, emote_sets, v) && r == v@,
        IncomingMessage::UserJoin { channel, username, display_name } =>
            r.len() == 0 && presence_step(s, n, channel, username, display_name, true),
        IncomingMessage::UserLeave { channel, username, display_name } =>
            r.len() == 0 && presence_step(s, n, channel, username, display_name, false),
        IncomingMessage::UserMuted { channel, username } => r.len() == 0 && muted_step(s, n, channel, username),
        IncomingMessage::VoteStart {} => r.len() == 0 && n == s,
        IncomingMessage::VoteStop {} => r.len() == 0 && n == s,
    }
}

impl ChatState {
    /// Applies an event from a chat connection, giving the requests for the
    /// emote loader that it calls for.
    pub fn handle_incoming_message(&mut self, x: IncomingMessage) -> (r: Vec<EmoteRequest>)
        requires
            old(self).wf(),
            old(self).combos_bounded(),
        ensures
            final(self).wf(),
            incoming_step(*old(self), *final(self), x, r@),
    {
        let ghost s = *self;
        let ghost xx = x;
        let mut out: Vec<EmoteRequest> = Vec::new();
        match x {
            IncomingMessage::PrivMsg { message } => {
                let text = normalize_message_text(message.provider, message.message.as_str());
                let mm = ChatMessage { message: text, ..message };
                self.add_youtube_channel_if_new(&mm);
                let ghost s1 = *self;
                let ghost mmv = mm;
                self.record_chat_message(mm);
                assert(youtube_step(s, s1, mmv) && chat_step(s1, *self, mmv));
            },
            IncomingMessage::StreamingStatus { channel, status } => {
                self.set_channel_status(&channel, status);
            },
            IncomingMessage::MsgEmotes { provider, emote_ids } => {
                self.add_msg_emotes(provider, emote_ids);
            },
            IncomingMessage::RoomId { channel, room_id } => {
                let q = self.set_room_id(&channel, room_id);
                let ghost qv = q;
                match q {
                    Some(e) => {
                        out.push(e);
                    },
                    None => {},
                }
                assert(out@ == match qv {
                    Some(e) => seq![e],
                    None => Seq::<EmoteRequest>::empty(),
                });
            },
            IncomingMessage::EmoteSets { provider, emote_sets } => {
                out = self.set_emote_sets(provider, emote_sets);
            },
            IncomingMessage::UserJoin { channel, username, display_name } => {
                self.set_user_presence(&channel, &username, &display_name, true);
            },
            IncomingMessage::UserLeave { channel, username, display_name } => {
                self.set_user_presence(&channel, &username, &display_name, false);
            },
            IncomingMessage::UserMuted { channel, username } => {
                self.mark_user_messages_removed(&channel, &username);
            },
            IncomingMessage::VoteStart {} => {},
            IncomingMessage::VoteStop {} => {},
        }
        out
    }

    /// Whether every combo count of every history can still be incremented;
    /// a chat line may be recorded only then.
    pub fn combos_below_limit(&self) -> (r: bool)
        requires
            self.wf(),
        ensures
            r == self.combos_bounded(),
    {
        proof {
            self.chat_histories.lemma_wf();
        }
        let n = self.chat_histories.len();
        let mut i: usize = 0;
        while i < n
            invariant
                self.wf(),
                i <= n,
                n == self.chat_histories.key_list().len(),
                forall|j: int| 0 <= j < i ==> history_bounded(#[trigger] self.chat_histories.value_list()[j]@),
            decreases n - i,
        {
            let h = self.chat_histories.value_at(i);
            let len = h.len();
            let mut k: usize = 0;
            while k < len
                invariant
                    self.wf(),
                    i < n,
                    n == self.chat_histories.key_list().len(),
                    *h == self.chat_histories.value_list()[i as int],
                    k <= len,
                    len == h@.len(),
                    forall|j: int| 0 <= j < k ==> ((#[trigger] h@[j]).combo_data matches Some(c) ==> c.count < usize::MAX),
                decreases len - k,
            {
                let at_limit = match &h[k].combo_data {
                    Some(c) => c.count == usize::MAX,
                    None => false,
                };
                if at_limit {
                    proof {
                        self.chat_histories.lemma_wf();
                        let key = self.chat_histories.key_list()[i as int];
                        assert(self.chat_histories@.contains_key(key));
                        assert(self.chat_histories@[key] == self.chat_histories.value_list()[i as int]);
                        assert(!history_bounded(self.chat_histories@[key]@)) by {
                            assert(h@[k as int].combo_data matches Some(c) && c.count == usize::MAX);
                        }
                    }
                    return false;
                }
                k += 1;
            }
            i += 1;
        }
        proof {
            self.chat_histories.lemma_wf();
            assert forall|key: Seq<char>| #[trigger] self.chat_histories@.contains_key(key) implies
                history_bounded(self.chat_histories@[key]@) by {
                assert(self.chat_histories.key_list().contains(key));
                let j = choose|j: int| 0 <= j < n && self.chat_histories.key_list()[j] == key;
                assert(history_bounded(self.chat_histories.value_list()[j]@));
            }
        }
        true
    }
}

} // verus!
