//! Channels and providers as the client keeps them.

use vstd::prelude::*;
use std::collections::VecDeque;
use crate::name_map::NameMap;
use crate::model::{ChannelStatus, ChannelUser, Emote, EmoteSource, EmoteStatus, ProviderName, TwitchChannel, YoutubeChannel};

verus! {

/// What is known of a channel while it is open.
pub struct ChannelTransient {
    pub channel_emotes: Option<NameMap<Emote>>,
    pub badge_emotes: Option<NameMap<Emote>>,
    pub status: Option<ChannelStatus>,
}

/// Channel data common to all providers.
pub struct ChannelShared {
    pub channel_name: String,
    pub show_in_mentions_tab: bool,
    pub show_tab_when_offline: bool,
    pub send_history: VecDeque<String>,
    pub send_history_ix: Option<usize>,
    pub transient: Option<ChannelTransient>,
    pub users: NameMap<ChannelUser>,
}

/// Destiny.gg channel data: where its chat, status and images are served.
pub struct DggChannel {
    pub dgg_chat_url: String,
    pub dgg_status_url: String,
    pub dgg_cdn_url: String,
}

/// A channel of one of the providers.
pub enum Channel {
    Twitch { twitch: TwitchChannel, shared: ChannelShared },
    DGG { dgg: DggChannel, shared: ChannelShared },
    Youtube { youtube: YoutubeChannel, shared: ChannelShared },
}

/// An optional emote map is well formed when present.
pub open spec fn opt_map_wf(m: Option<NameMap<Emote>>) -> bool {
    match m {
        Some(m) => m.wf(),
        None => true,
    }
}

/// The emote maps and user map of a channel are well formed.
pub open spec fn shared_wf(s: ChannelShared) -> bool {
    &&& s.users.wf()
    &&& s.transient matches Some(t) ==> opt_map_wf(t.channel_emotes) && opt_map_wf(t.badge_emotes)
}

/// A channel's emote map, or its badge map.
pub open spec fn chosen_map(t: ChannelTransient, badge: bool) -> Option<NameMap<Emote>> {
    if badge {
        t.badge_emotes
    } else {
        t.channel_emotes
    }
}

/// The open-channel data with the chosen map replaced.
pub open spec fn with_chosen(t: ChannelTransient, badge: bool, m: NameMap<Emote>) -> ChannelTransient {
    if badge {
        ChannelTransient { badge_emotes: Some(m), ..t }
    } else {
        ChannelTransient { channel_emotes: Some(m), ..t }
    }
}

/// What taking in a channel's emote (or badge) list does: when the list
/// arrived and the channel is open, the list, marked as the channel's, becomes
/// its emote (or badge) map; otherwise nothing changes.
pub open spec fn list_set(c: Channel, n: Channel, list: Result<NameMap<Emote>, String>, badge: bool) -> bool {
    match (list, c.spec_shared().transient) {
        (Ok(m), Some(t)) => {
            let nt = n.spec_shared().transient;
            &&& nt is Some
            &&& chosen_map(nt->0, badge) is Some
            &&& n == c.with_shared(ChannelShared {
                transient: Some(with_chosen(t, badge, chosen_map(nt->0, badge)->0)),
                ..c.spec_shared()
            })
            &&& tagged(m, chosen_map(nt->0, badge)->0, if badge { EmoteSource::ChannelBadge } else { EmoteSource::Channel },
                c.spec_shared().channel_name@)
        },
        _ => n == c,
    }
}

impl Channel {
    /// The data common to every kind of channel.
    pub open spec fn spec_shared(self) -> ChannelShared {
        match self {
            Channel::Twitch { shared, .. } => shared,
            Channel::DGG { shared, .. } => shared,
            Channel::Youtube { shared, .. } => shared,
        }
    }

    /// The provider a channel belongs to.
    pub open spec fn spec_provider(self) -> ProviderName {
        match self {
            Channel::Twitch { .. } => ProviderName::Twitch,
            Channel::DGG { .. } => ProviderName::DGG,
            Channel::Youtube { .. } => ProviderName::YouTube,
        }
    }

    /// The channel with its common data replaced.
    pub open spec fn with_shared(self, s: ChannelShared) -> Channel {
        match self {
            Channel::Twitch { twitch, .. } => Channel::Twitch { twitch, shared: s },
            Channel::DGG { dgg, .. } => Channel::DGG { dgg, shared: s },
            Channel::Youtube { youtube, .. } => Channel::Youtube { youtube, shared: s },
        }
    }

    /// The channel's maps are well formed.
    pub open spec fn wf(self) -> bool {
        shared_wf(self.spec_shared())
    }

    /// The channel's name.
    pub fn channel_name(&self) -> (r: &String)
        ensures
            *r == self.spec_shared().channel_name,
    {
        match self {
            Channel::DGG { shared, .. } => &shared.channel_name,
            Channel::Twitch { shared, .. } => &shared.channel_name,
            Channel::Youtube { shared, .. } => &shared.channel_name,
        }
    }

    /// What is known of the channel while it is open.
    pub fn transient(&self) -> (r: Option<&ChannelTransient>)
        ensures
            match r {
                Some(t) => self.spec_shared().transient == Some(*t),
                None => self.spec_shared().transient is None,
            },
    {
        match self {
            Channel::DGG { shared, .. } => shared.transient.as_ref(),
            Channel::Twitch { shared, .. } => shared.transient.as_ref(),
            Channel::Youtube { shared, .. } => shared.transient.as_ref(),
        }
    }

    /// The data kept while the channel is open, to change in place.
    pub fn transient_mut(&mut self) -> (r: Option<&mut ChannelTransient>)
        ensures
            match r {
                Some(t) => {
                    &&& old(self).spec_shared().transient == Some(*t)
                    &&& *final(self) == old(self).with_shared(
                        ChannelShared { transient: Some(*final(t)), ..old(self).spec_shared() },
                    )
                },
                None => {
                    &&& old(self).spec_shared().transient is None
                    &&& *final(self) == *old(self)
                },
            },
    {
        match self {
            Channel::DGG { shared, .. } => shared.transient.as_mut(),
            Channel::Twitch { shared, .. } => shared.transient.as_mut(),
            Channel::Youtube { shared, .. } => shared.transient.as_mut(),
        }
    }

    /// The data common to every kind of channel.
    pub fn shared(&self) -> (r: &ChannelShared)
        ensures
            *r == self.spec_shared(),
    {
        match self {
            Channel::DGG { shared, .. } => shared,
            Channel::Twitch { shared, .. } => shared,
            Channel::Youtube { shared, .. } => shared,
        }
    }

    /// The common data, to change in place.
    pub fn shared_mut(&mut self) -> (r: &mut ChannelShared)
        ensures
            *r == old(self).spec_shared(),
            *final(self) == old(self).with_shared(*final(r)),
    {
        match self {
            Channel::DGG { shared, .. } => shared,
            Channel::Twitch { shared, .. } => shared,
            Channel::Youtube { shared, .. } => shared,
        }
    }

    /// The provider the channel belongs to.
    pub fn provider(&self) -> (r: ProviderName)
        ensures
            r == self.spec_provider(),
    {
        match self {
            Channel::DGG { .. } => ProviderName::DGG,
            Channel::Twitch { .. } => ProviderName::Twitch,
            Channel::Youtube { .. } => ProviderName::YouTube,
        }
    }

    /// Takes in the channel's emote list. Each emote is marked as a channel
    /// emote of this channel; the list is kept when the channel is open. A
    /// failed download leaves the channel as it was.
    pub fn set_emotes(&mut self, emotes: Result<NameMap<Emote>, String>)
        requires
            old(self).wf(),
            emotes matches Ok(m) ==> m.wf(),
        ensures
            final(self).wf(),
            final(self).spec_provider() == old(self).spec_provider(),
            final(self).spec_shared().channel_name == old(self).spec_shared().channel_name,
            final(self).spec_shared().users == old(self).spec_shared().users,
            list_set(*old(self), *final(self), emotes, false),
    {
        match emotes {
            Ok(mut emotes) => {
                let name = self.channel_name().clone();
                tag_emotes(&mut emotes, EmoteSource::Channel, &name);
                let shared = self.shared_mut();
                match &mut shared.transient {
                    Some(t) => {
                        t.channel_emotes = Some(emotes);
                    },
                    None => {},
                }
            },
            Err(_) => {},
        }
    }

    /// Takes in the channel's badge list, as `set_emotes` does its emotes.
    pub fn set_badges(&mut self, badges: Result<NameMap<Emote>, String>)
        requires
            old(self).wf(),
            badges matches Ok(m) ==> m.wf(),
        ensures
            final(self).wf(),
            final(self).spec_provider() == old(self).spec_provider(),
            final(self).spec_shared().channel_name == old(self).spec_shared().channel_name,
            final(self).spec_shared().users == old(self).spec_shared().users,
            list_set(*old(self), *final(self), badges, true),
    {
        match badges {
            Ok(mut badges) => {
                let name = self.channel_name().clone();
                tag_emotes(&mut badges, EmoteSource::ChannelBadge, &name);
                let shared = self.shared_mut();
                match &mut shared.transient {
                    Some(t) => {
                        t.badge_emotes = Some(badges);
                    },
                    None => {},
                }
            },
            Err(_) => {},
        }
    }
}

/// `after` holds the emotes of `before` under the same names, each with its
/// source set to `source` and its channel name to `channel`, all else kept.
pub open spec fn tagged(before: NameMap<Emote>, after: NameMap<Emote>, source: EmoteSource, channel: Seq<char>) -> bool {
    &&& after.wf()
    &&& after.key_list() == before.key_list()
    &&& after@.dom() == before@.dom()
    &&& forall|k: Seq<char>| #[trigger] after@.contains_key(k) ==> same_but_tag(before@[k], after@[k], source, channel)
}

/// `b` is `a` with its source and channel name set.
pub open spec fn same_but_tag(a: Emote, b: Emote, source: EmoteSource, channel: Seq<char>) -> bool {
    &&& b.source == source
    &&& b.channel_name@ == channel
    &&& b.name == a.name
    &&& b.id == a.id
    &&& b.display_name == a.display_name
    &&& b.color == a.color
    &&& b.frame_delays == a.frame_delays
    &&& b.loaded == a.loaded
    &&& b.duration_msec == a.duration_msec
    &&& b.url == a.url
    &&& b.path == a.path
    &&& b.extension == a.extension
    &&& b.zero_width == a.zero_width
    &&& b.css_anim == a.css_anim
    &&& b.priority == a.priority
    &&& b.hidden == a.hidden
}

/// Sets the source and channel name of every emote in a map.
pub fn tag_emotes(emotes: &mut NameMap<Emote>, source: EmoteSource, channel: &String)
    requires
        old(emotes).wf(),
    ensures
        tagged(*old(emotes), *final(emotes), source, channel@),
{
    let ghost before = *emotes;
    proof {
        before.lemma_wf();
    }
    let n = emotes.len();
    let mut i: usize = 0;
    while i < n
        invariant
            emotes.wf(),
            before.wf(),
            n == before.key_list().len(),
            i <= n,
            emotes.key_list() == before.key_list(),
            emotes.value_list().len() == n,
            forall|j: int| 0 <= j < i ==> same_but_tag(before.value_list()[j], #[trigger] emotes.value_list()[j], source, channel@),
            forall|j: int| i <= j < n ==> #[trigger] emotes.value_list()[j] == before.value_list()[j],
        decreases n - i,
    {
        proof {
            emotes.lemma_wf();
        }
        let e = emotes.value_mut_at(i);
        e.source = source;
        e.channel_name = channel.clone();
        i += 1;
    }
    proof {
        emotes.lemma_wf();
        assert forall|k: Seq<char>| #[trigger] emotes@.contains_key(k) implies same_but_tag(before@[k], emotes@[k], source, channel@) by {
            let j = choose|j: int| 0 <= j < n && emotes.key_list()[j] == k;
            assert(before.key_list().contains(k));
        }
        assert(emotes@.dom() =~= before@.dom()) by {
            assert forall|k: Seq<char>| emotes@.contains_key(k) <==> before@.contains_key(k) by {
                assert(emotes@.contains_key(k) <==> emotes.key_list().contains(k));
                assert(before@.contains_key(k) <==> before.key_list().contains(k));
            }
        }
    }
}

/// A provider's emotes, badges and the user's emote sets there.
pub struct Provider {
    pub name: String,
    pub emotes: NameMap<Emote>,
    pub my_sub_emotes: NameMap<()>,
    pub global_badges: Option<NameMap<Emote>>,
    pub username: String,
    pub my_emote_sets: Vec<String>,
}

/// The maps of a provider are well formed.
pub open spec fn provider_wf(p: Provider) -> bool {
    &&& p.emotes.wf()
    &&& p.my_sub_emotes.wf()
    &&& opt_map_wf(p.global_badges)
}

impl Default for Emote {
    fn default() -> (r: Self)
        ensures
            r.name@ == Seq::<char>::empty(),
            r.id@ == Seq::<char>::empty(),
            r.display_name is None,
            r.color is None,
            r.frame_delays is None,
            r.loaded == EmoteStatus::NotLoaded,
            r.duration_msec == 0,
            r.url@ == Seq::<char>::empty(),
            r.path@ == Seq::<char>::empty(),
            r.extension is None,
            !r.zero_width,
            r.css_anim is None,
            r.priority == 0,
            !r.hidden,
            r.source == EmoteSource::Channel,
            r.channel_name@ == Seq::<char>::empty(),
    {
        Emote {
            name: String::new(),
            id: String::new(),
            display_name: None,
            color: None,
            frame_delays: None,
            loaded: EmoteStatus::NotLoaded,
            duration_msec: 0,
            url: String::new(),
            path: String::new(),
            extension: None,
            zero_width: false,
            css_anim: None,
            priority: 0,
            hidden: false,
            source: EmoteSource::Channel,
            channel_name: String::new(),
        }
    }
}

} // verus!

verus! {

/// Opens a Twitch channel: it gets its open-channel data if it has none, and
/// the chat session is asked to join it.
pub fn open_twitch_channel(twitch: &TwitchChannel, shared: &mut ChannelShared) -> (r: crate::model::OutgoingMessage)
    ensures
        final(shared).transient == if old(shared).transient is None {
            Some(ChannelTransient { channel_emotes: None, badge_emotes: None, status: None })
        } else {
            old(shared).transient
        },
        *final(shared) == (ChannelShared { transient: final(shared).transient, ..*old(shared) }),
        r matches crate::model::OutgoingMessage::TwitchJoin { channel_name, room_id, show_offline_chat }
            && channel_name == old(shared).channel_name && room_id == twitch.room_id
            && show_offline_chat == old(shared).show_tab_when_offline,
{
    if shared.transient.is_none() {
        shared.transient = Some(ChannelTransient { channel_emotes: None, badge_emotes: None, status: None });
    }
    crate::model::OutgoingMessage::TwitchJoin {
        channel_name: shared.channel_name.clone(),
        room_id: match &twitch.room_id {
            Some(r) => Some(r.clone()),
            None => None,
        },
        show_offline_chat: shared.show_tab_when_offline,
    }
}

/// A new Twitch channel, named in lower case, shown in the mentions tab and
/// not while offline, open, with the request to join its chat.
pub fn init_twitch_channel(channel_name: &str) -> (r: (Channel, crate::model::OutgoingMessage))
    ensures
        r.0 is Twitch,
        r.0.spec_shared().channel_name@ == crate::text::lowercase(channel_name@),
        r.0.spec_shared().show_in_mentions_tab,
        !r.0.spec_shared().show_tab_when_offline,
        r.0.spec_shared().send_history@.len() == 0,
        r.0.spec_shared().send_history_ix is None,
        r.0.spec_shared().transient == Some(ChannelTransient { channel_emotes: None, badge_emotes: None, status: None }),
        r.0.wf(),
        r.0.spec_shared().users@ == Map::<Seq<char>, ChannelUser>::empty(),
        r.0 matches Channel::Twitch { twitch, .. } && twitch.room_id is None,
        r.1 matches crate::model::OutgoingMessage::TwitchJoin { channel_name: n, room_id, show_offline_chat }
            && n@ == crate::text::lowercase(channel_name@) && room_id is None && !show_offline_chat,
{
    let mut shared = ChannelShared {
        channel_name: crate::text::to_lowercase(channel_name),
        show_in_mentions_tab: true,
        show_tab_when_offline: false,
        send_history: VecDeque::new(),
        send_history_ix: None,
        transient: None,
        users: NameMap::new(),
    };
    let twitch = TwitchChannel { room_id: None };
    let join = open_twitch_channel(&twitch, &mut shared);
    (Channel::Twitch { twitch, shared }, join)
}

} // verus!
