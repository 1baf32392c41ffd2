//! Adding a channel from the add-channel menu.

use vstd::prelude::*;
use std::collections::VecDeque;
use crate::name_map::NameMap;
use crate::model::{AddChannelMenu, ChannelUser, EmoteRequest, OutgoingMessage, ProviderName, YoutubeChannel};
use crate::channel::{init_twitch_channel, Channel, ChannelShared, ChannelTransient, DggChannel, Provider};
use crate::state::ChatState;
use crate::text::{lowercase, opt_str_view};

verus! {

/// A provider entry as it is first made: named, with no emotes or badges yet.
pub open spec fn fresh_provider(p: Provider, name: Seq<char>) -> bool {
    &&& p.name@ == name
    &&& p.emotes.wf()
    &&& p.emotes@ == Map::<Seq<char>, crate::model::Emote>::empty()
    &&& p.my_sub_emotes.wf()
    &&& p.my_sub_emotes@ == Map::<Seq<char>, ()>::empty()
    &&& p.global_badges is None
    &&& p.username@.len() == 0
    &&& p.my_emote_sets@.len() == 0
}

fn new_provider(name: &str) -> (r: Provider)
    ensures
        fresh_provider(r, name@),
{
    Provider {
        name: name.to_owned(),
        emotes: NameMap::new(),
        my_sub_emotes: NameMap::new(),
        global_badges: None,
        username: String::new(),
        my_emote_sets: Vec::new(),
    }
}

/// The name of the tab a channel added from the menu gets: a Twitch
/// channel's name in lower case, "Destiny" for Destiny.gg, and no name for
/// YouTube (whose tabs are named after the stream that posts to them).
pub open spec fn tab_name(provider: ProviderName, name: Seq<char>) -> Seq<char> {
    match provider {
        ProviderName::Twitch => lowercase(name),
        ProviderName::DGG => crate::dgg::dgg_channel(),
        ProviderName::YouTube => Seq::empty(),
    }
}

/// Common data of a channel as it is first made.
pub open spec fn fresh_shared(s: ChannelShared, name: Seq<char>, mentions: bool) -> bool {
    &&& s.channel_name@ == name
    &&& s.show_in_mentions_tab == mentions
    &&& !s.show_tab_when_offline
    &&& s.send_history@.len() == 0
    &&& s.send_history_ix is None
    &&& s.users.wf()
    &&& s.users@ == Map::<Seq<char>, ChannelUser>::empty()
}

/// The channel the menu makes for a provider and a typed name.
pub open spec fn fresh_tab(c: Channel, provider: ProviderName, name: Seq<char>) -> bool {
    &&& fresh_shared(c.spec_shared(), tab_name(provider, name), provider != ProviderName::YouTube)
    &&& match provider {
        ProviderName::Twitch => c matches Channel::Twitch { twitch, shared } && twitch.room_id is None
            && shared.transient == Some(ChannelTransient { channel_emotes: None, badge_emotes: None, status: None }),
        ProviderName::DGG => c matches Channel::DGG { dgg, shared } && dgg.dgg_chat_url@.len() == 0
            && dgg.dgg_status_url@.len() == 0 && dgg.dgg_cdn_url@.len() == 0 && shared.transient is None,
        ProviderName::YouTube => c matches Channel::Youtube { shared, .. } && shared.transient is None,
    }
}

/// The Destiny.gg channel as it is first made.
pub fn init_dgg_channel() -> (r: Channel)
    ensures
        fresh_tab(r, ProviderName::DGG, Seq::empty()),
{
    let shared = ChannelShared {
        channel_name: crate::dgg::dgg_channel_name(),
        show_in_mentions_tab: true,
        show_tab_when_offline: false,
        send_history: VecDeque::new(),
        send_history_ix: None,
        transient: None,
        users: NameMap::new(),
    };
    let dgg = DggChannel { dgg_chat_url: String::new(), dgg_status_url: String::new(), dgg_cdn_url: String::new() };
    Channel::DGG { dgg, shared }
}

impl ChatState {
    /// Adds the channel the menu describes: the provider's entry is made if
    /// there is none, the channel gets a tab unless one of its name is open,
    /// and it becomes the selected channel; the menu's name is cleared. A
    /// Twitch channel also asks for Twitch's global badges and is joined.
    pub fn add_channel(&mut self, menu: &mut AddChannelMenu, selected: &mut Option<String>) -> (r: (Vec<EmoteRequest>, Option<OutgoingMessage>))
        requires
            old(self).wf(),
        ensures
            final(self).wf(),
            ({
                let p = old(menu).provider;
                let name = tab_name(p, old(menu).channel_name@);
                let s = *old(self);
                let n = *final(self);
                &&& n.channels@.dom() == s.channels@.dom().insert(name)
                &&& s.channels@.contains_key(name) ==> n.channels@ == s.channels@ && n.channel_tab_list == s.channel_tab_list
                &&& !s.channels@.contains_key(name) ==> {
                    &&& n.channels@ == s.channels@.insert(name, n.channels@[name])
                    &&& fresh_tab(n.channels@[name], p, old(menu).channel_name@)
                    &&& crate::text::views(n.channel_tab_list@) == crate::text::views(s.channel_tab_list@).push(name)
                }
                &&& opt_str_view(*final(selected)) == Some(name)
                &&& n.chat_histories == s.chat_histories
                &&& n.global_emotes == s.global_emotes
                &&& n.emote_loader == s.emote_loader
                &&& n.auth_tokens == s.auth_tokens
                &&& n.providers.dgg == s.providers.dgg
                &&& match p {
                    ProviderName::Twitch => {
                        &&& n.providers.youtube == s.providers.youtube
                        &&& (s.providers.twitch is Some ==> n.providers.twitch == s.providers.twitch)
                        &&& (s.providers.twitch is None ==> (n.providers.twitch matches Some(tp) && fresh_provider(tp, "twitch"@)))
                        &&& r.0@.len() == 1
                        &&& r.0@[0] matches EmoteRequest::TwitchGlobalBadgeListRequest { token, force_redownload }
                            && token@ == s.auth_tokens.twitch_auth_token@ && !force_redownload
                        &&& r.1 matches Some(OutgoingMessage::TwitchJoin { channel_name, room_id, show_offline_chat })
                            && channel_name@ == name && room_id is None && !show_offline_chat
                    },
                    ProviderName::YouTube => {
                        &&& n.providers.twitch == s.providers.twitch
                        &&& (s.providers.youtube is Some ==> n.providers.youtube == s.providers.youtube)
                        &&& (s.providers.youtube is None ==> (n.providers.youtube matches Some(yp) && fresh_provider(yp, "YouTube"@)))
                        &&& r.0@.len() == 0
                        &&& r.1 is None
                    },
                    ProviderName::DGG => {
                        &&& n.providers == s.providers
                        &&& r.0@.len() == 0
                        &&& r.1 is None
                    },
                }
            }),
            final(menu).channel_name@.len() == 0,
            final(menu).provider == old(menu).provider,
    {
        let mut requests: Vec<EmoteRequest> = Vec::new();
        let mut join: Option<OutgoingMessage> = None;
        let ghost s = *self;
        let c = match menu.provider {
            ProviderName::Twitch => {
                if self.providers.twitch.is_none() {
                    self.providers.twitch = Some(new_provider("twitch"));
                }
                requests.push(EmoteRequest::TwitchGlobalBadgeListRequest {
                    token: self.auth_tokens.twitch_auth_token.clone(),
                    force_redownload: false,
                });
                let (c, j) = init_twitch_channel(menu.channel_name.as_str());
                join = Some(j);
                c
            },
            ProviderName::DGG => init_dgg_channel(),
            ProviderName::YouTube => {
                if self.providers.youtube.is_none() {
                    self.providers.youtube = Some(new_provider("YouTube"));
                }
                let shared = ChannelShared {
                    channel_name: String::new(),
                    show_in_mentions_tab: false,
                    show_tab_when_offline: false,
                    send_history: VecDeque::new(),
                    send_history_ix: None,
                    transient: None,
                    users: NameMap::new(),
                };
                Channel::Youtube { youtube: YoutubeChannel {}, shared }
            },
        };
        assert(c.wf());
        let name = c.channel_name().clone();
        if !self.channels.contains_key(name.as_str()) {
            self.channels.insert(name.clone(), c);
            self.channel_tab_list.push(name.clone());
        }
        *selected = Some(name);
        menu.channel_name = String::new();
        proof {
            assert forall|q: ProviderName| #[trigger] self.providers.spec_get(q) is Some implies crate::channel::provider_wf(
                self.providers.spec_get(q)->0,
            ) by {
                assert(s.wf());
                if s.providers.spec_get(q) is Some {
                    assert(crate::channel::provider_wf(s.providers.spec_get(q)->0));
                }
            }
            assert forall|k: Seq<char>| #[trigger] self.channels@.contains_key(k) implies self.channels@[k].wf() by {
                assert(s.wf());
                if s.channels@.contains_key(k) && self.channels@[k] == s.channels@[k] {
                    assert(s.channels@[k].wf());
                }
            }
        }
        (requests, join)
    }
}

/// The request that downloads a channel's emote and badge lists again,
/// skipping the cache: a Twitch channel once its room id is known, or a
/// Destiny.gg channel, from its CDN; none for YouTube.
pub open spec fn reload_request(c: Channel, token: Seq<char>, r: Option<EmoteRequest>) -> bool {
    match c {
        Channel::Twitch { twitch, shared } => match twitch.room_id {
            Some(id) => r matches Some(EmoteRequest::TwitchBadgeEmoteListRequest { channel_id, channel_name, token: t, force_redownload })
                && channel_id@ == id@ && channel_name@ == shared.channel_name@ && t@ == token && force_redownload,
            None => r is None,
        },
        Channel::DGG { dgg, shared } => r matches Some(EmoteRequest::DggFlairEmotesRequest { channel_name, cdn_base_url, force_redownload })
            && channel_name@ == shared.channel_name@ && cdn_base_url@ == dgg.dgg_cdn_url@ && force_redownload,
        Channel::Youtube { .. } => r is None,
    }
}

/// A channel whose "always show tab" option is set to `show`; a Twitch
/// channel is also opened again, so that the chat session learns the option.
pub open spec fn tab_option_set(c: Channel, n: Channel, show: bool, r: Option<OutgoingMessage>) -> bool {
    let sh = c.spec_shared();
    match c {
        Channel::Twitch { twitch, .. } => {
            &&& n == c.with_shared(ChannelShared {
                show_tab_when_offline: show,
                transient: if sh.transient is None {
                    Some(ChannelTransient { channel_emotes: None, badge_emotes: None, status: None })
                } else {
                    sh.transient
                },
                ..sh
            })
            &&& r matches Some(OutgoingMessage::TwitchJoin { channel_name, room_id, show_offline_chat })
                && channel_name == sh.channel_name && room_id == twitch.room_id && show_offline_chat == show
        },
        _ => n == c.with_shared(ChannelShared { show_tab_when_offline: show, ..sh }) && r is None,
    }
}

impl ChatState {
    /// The request made by the channel options' "reload channel emotes".
    pub fn reload_channel_emotes(&self, channel: &String) -> (r: Option<EmoteRequest>)
        requires
            self.wf(),
        ensures
            !self.channels@.contains_key(channel@) ==> r is None,
            self.channels@.contains_key(channel@) ==> reload_request(
                self.channels@[channel@],
                self.auth_tokens.twitch_auth_token@,
                r,
            ),
    {
        match self.channels.get(channel.as_str()) {
            None => None,
            Some(Channel::Twitch { twitch, shared }) => match &twitch.room_id {
                Some(id) => Some(EmoteRequest::TwitchBadgeEmoteListRequest {
                    channel_id: id.clone(),
                    channel_name: shared.channel_name.clone(),
                    token: self.auth_tokens.twitch_auth_token.clone(),
                    force_redownload: true,
                }),
                None => None,
            },
            Some(Channel::DGG { dgg, shared }) => Some(EmoteRequest::DggFlairEmotesRequest {
                channel_name: shared.channel_name.clone(),
                cdn_base_url: dgg.dgg_cdn_url.clone(),
                force_redownload: true,
            }),
            Some(Channel::Youtube { .. }) => None,
        }
    }

    /// Sets a channel's "always show tab" option, giving the message that
    /// opens a Twitch channel again.
    pub fn set_always_show_tab(&mut self, channel: &String, show: bool) -> (r: Option<OutgoingMessage>)
        requires
            old(self).wf(),
        ensures
            final(self).wf(),
            !old(self).channels@.contains_key(channel@) ==> *final(self) == *old(self) && r is None,
            old(self).channels@.contains_key(channel@) ==> {
                &&& final(self).channels@ == old(self).channels@.insert(channel@, final(self).channels@[channel@])
                &&& tab_option_set(old(self).channels@[channel@], final(self).channels@[channel@], show, r)
                &&& final(self).channels.key_list() == old(self).channels.key_list()
                &&& final(self).providers == old(self).providers
                &&& final(self).chat_histories == old(self).chat_histories
                &&& final(self).global_emotes == old(self).global_emotes
                &&& final(self).emote_loader == old(self).emote_loader
                &&& final(self).auth_tokens == old(self).auth_tokens
                &&& final(self).channel_tab_list == old(self).channel_tab_list
            },
    {
        match self.channels.position(channel.as_str()) {
            None => None,
            Some(ci) => {
                proof {
                    self.channels.lemma_wf();
                }
                let ghost s = *self;
                let c = self.channels.value_mut_at(ci);
                let ghost c0 = *c;
                assert(c0 == s.channels@[channel@]);
                assert(c0.wf());
                match c {
                    Channel::Twitch { twitch, shared } => {
                        shared.show_tab_when_offline = show;
                        let m = crate::channel::open_twitch_channel(twitch, shared);
                        Some(m)
                    },
                    Channel::DGG { shared, .. } => {
                        shared.show_tab_when_offline = show;
                        None
                    },
                    Channel::Youtube { shared, .. } => {
                        shared.show_tab_when_offline = show;
                        None
                    },
                }
            },
        }
    }
}

/// What opening a channel of the tab row that is not open yet asks for.
#[derive(Debug)]
pub enum OpenAction {
    /// This message goes to the Twitch chat session.
    Join(OutgoingMessage),
    /// Destiny.gg chat is connected, and this request loads its emotes and
    /// flairs.
    ConnectDestiny(EmoteRequest),
    Nothing,
}

/// Open-channel data with nothing loaded yet.
pub open spec fn empty_transient() -> ChannelTransient {
    ChannelTransient { channel_emotes: None, badge_emotes: None, status: None }
}

/// Opening a channel that is not open yet: a Twitch channel is joined when
/// there is a chat session, a Destiny.gg channel is connected, and a YouTube
/// channel is just marked open; an open channel is left alone.
pub open spec fn open_step(c: Channel, n: Channel, session: bool, r: OpenAction) -> bool {
    let sh = c.spec_shared();
    let opened = c.with_shared(ChannelShared { transient: Some(empty_transient()), ..sh });
    if sh.transient is Some {
        n == c && r is Nothing
    } else {
        match c {
            Channel::Twitch { twitch, .. } => if session {
                &&& n == opened
                &&& r matches OpenAction::Join(OutgoingMessage::TwitchJoin { channel_name, room_id, show_offline_chat })
                    && channel_name == sh.channel_name && room_id == twitch.room_id
                    && show_offline_chat == sh.show_tab_when_offline
            } else {
                n == c && r is Nothing
            },
            Channel::DGG { dgg, .. } => {
                &&& n == opened
                &&& r matches OpenAction::ConnectDestiny(EmoteRequest::DggFlairEmotesRequest { channel_name, cdn_base_url, force_redownload })
                    && channel_name@ == sh.channel_name@ && cdn_base_url@ == dgg.dgg_cdn_url@ && !force_redownload
            },
            Channel::Youtube { .. } => n == opened && r is Nothing,
        }
    }
}

impl ChatState {
    /// Opens a channel of the tab row if it is not open yet.
    pub fn open_pending_channel(&mut self, channel: &String, has_twitch_session: bool) -> (r: OpenAction)
        requires
            old(self).wf(),
        ensures
            final(self).wf(),
            !old(self).channels@.contains_key(channel@) ==> *final(self) == *old(self) && r is Nothing,
            old(self).channels@.contains_key(channel@) ==> {
                &&& final(self).channels@ == old(self).channels@.insert(channel@, final(self).channels@[channel@])
                &&& open_step(old(self).channels@[channel@], final(self).channels@[channel@], has_twitch_session, r)
                &&& final(self).channels.key_list() == old(self).channels.key_list()
                &&& final(self).providers == old(self).providers
                &&& final(self).chat_histories == old(self).chat_histories
                &&& final(self).global_emotes == old(self).global_emotes
                &&& final(self).emote_loader == old(self).emote_loader
                &&& final(self).auth_tokens == old(self).auth_tokens
                &&& final(self).channel_tab_list == old(self).channel_tab_list
            },
    {
        match self.channels.position(channel.as_str()) {
            None => OpenAction::Nothing,
            Some(ci) => {
                proof {
                    self.channels.lemma_wf();
                }
                let ghost s = *self;
                let c = self.channels.value_mut_at(ci);
                assert(*c == s.channels@[channel@]);
                match c {
                    Channel::Twitch { twitch, shared } => {
                        if shared.transient.is_none() && has_twitch_session {
                            OpenAction::Join(crate::channel::open_twitch_channel(twitch, shared))
                        } else {
                            OpenAction::Nothing
                        }
                    },
                    Channel::DGG { dgg, shared } => {
                        if shared.transient.is_none() {
                            shared.transient = Some(ChannelTransient { channel_emotes: None, badge_emotes: None, status: None });
                            OpenAction::ConnectDestiny(EmoteRequest::DggFlairEmotesRequest {
                                channel_name: shared.channel_name.clone(),
                                cdn_base_url: dgg.dgg_cdn_url.clone(),
                                force_redownload: false,
                            })
                        } else {
                            OpenAction::Nothing
                        }
                    },
                    Channel::Youtube { shared, .. } => {
                        if shared.transient.is_none() {
                            shared.transient = Some(ChannelTransient { channel_emotes: None, badge_emotes: None, status: None });
                        }
                        OpenAction::Nothing
                    },
                }
            },
        }
    }
}

/// The request that downloads one of the user's Twitch emote sets again.
pub open spec fn is_set_reload(r: EmoteRequest, set: Seq<char>, token: Seq<char>) -> bool {
    r matches EmoteRequest::TwitchEmoteSetRequest { token: t, emote_set_id, force_redownload }
        && emote_set_id@ == set && t@ == token && force_redownload
}

/// The requests of "reload global and Twitch subscriber emotes": the global
/// emote list, Twitch's global badges and each of the user's Twitch emote
/// sets, all downloaded again.
pub open spec fn reload_global_requests(s: ChatState, r: Seq<EmoteRequest>) -> bool {
    let token = s.auth_tokens.twitch_auth_token@;
    let sets: Seq<String> = match s.providers.twitch {
        Some(p) => p.my_emote_sets@,
        None => Seq::empty(),
    };
    &&& r.len() == 2 + sets.len()
    &&& r[0] matches EmoteRequest::GlobalEmoteListRequest { force_redownload } && force_redownload
    &&& r[1] matches EmoteRequest::TwitchGlobalBadgeListRequest { token: t, force_redownload } && t@ == token && force_redownload
    &&& forall|i: int| 0 <= i < sets.len() ==> is_set_reload(#[trigger] r[2 + i], sets[i]@, token)
}

impl ChatState {
    /// The requests made by the options menu's emote reload.
    pub fn reload_global_emotes(&self) -> (r: Vec<EmoteRequest>)
        ensures
            reload_global_requests(*self, r@),
    {
        let mut r: Vec<EmoteRequest> = Vec::new();
        r.push(EmoteRequest::GlobalEmoteListRequest { force_redownload: true });
        r.push(EmoteRequest::TwitchGlobalBadgeListRequest {
            token: self.auth_tokens.twitch_auth_token.clone(),
            force_redownload: true,
        });
        match &self.providers.twitch {
            Some(p) => {
                let mut i: usize = 0;
                while i < p.my_emote_sets.len()
                    invariant
                        i <= p.my_emote_sets@.len(),
                        self.providers.twitch == Some(*p),
                        r@.len() == 2 + i,
                        r@[0] matches EmoteRequest::GlobalEmoteListRequest { force_redownload } && force_redownload,
                        r@[1] matches EmoteRequest::TwitchGlobalBadgeListRequest { token: t, force_redownload }
                            && t@ == self.auth_tokens.twitch_auth_token@ && force_redownload,
                        forall|k: int| 0 <= k < i ==> is_set_reload(#[trigger] r@[2 + k], p.my_emote_sets@[k]@, self.auth_tokens.twitch_auth_token@),
                    decreases p.my_emote_sets@.len() - i,
                {
                    r.push(EmoteRequest::TwitchEmoteSetRequest {
                        token: self.auth_tokens.twitch_auth_token.clone(),
                        emote_set_id: p.my_emote_sets[i].clone(),
                        force_redownload: true,
                    });
                    assert(is_set_reload(r@[2 + i as int], p.my_emote_sets@[i as int]@, self.auth_tokens.twitch_auth_token@));
                    i += 1;
                }
            },
            None => {},
        }
        r
    }
}

} // verus!
