//! What the emote loader's answers do to the chat state: emote and badge
//! lists arriving, and images arriving for emotes.

use vstd::prelude::*;
use crate::name_map::NameMap;
use crate::model::{Emote, EmoteSource, ProviderMap, ProviderName};
use crate::channel::{Channel, ChannelShared, ChannelTransient, Provider, chosen_map, list_set, provider_wf, with_chosen, opt_map_wf};
use crate::emotes::{delays_fit, emote_after_load, load_emote_data, EmoteLoader};
use crate::state::ChatState;
use crate::text::views;

verus! {

/// Answers of the emote loader. Decoded images stay with the interface; an
/// answer carries the delays of their frames.
pub enum EmoteResponse {
    GlobalEmoteImageLoaded { name: String, data: Option<Vec<u16>> },
    GlobalBadgeImageLoaded { name: String, data: Option<Vec<u16>> },
    ChannelEmoteImageLoaded { name: String, channel_name: String, data: Option<Vec<u16>> },
    ChannelBadgeImageLoaded { name: String, channel_name: String, data: Option<Vec<u16>> },
    TwitchMsgEmoteLoaded { name: String, id: String, data: Option<Vec<u16>> },
    ChannelEmoteListResponse { channel_name: String, response: Result<NameMap<Emote>, String> },
    ChannelBadgeListResponse { channel_name: String, response: Result<NameMap<Emote>, String> },
    TwitchEmoteSetResponse { emote_set_id: String, response: Result<NameMap<Emote>, String> },
    GlobalEmoteListResponse { response: Result<NameMap<Emote>, String> },
    TwitchGlobalBadgeListResponse { response: Result<NameMap<Emote>, String> },
    YouTubeMsgEmoteLoaded { name: String, data: Option<Vec<u16>> },
}

/// An image arriving for emote `name` of a map: the emote, if the map has it,
/// is loaded.
pub open spec fn image_loaded_in(before: Map<Seq<char>, Emote>, after: Map<Seq<char>, Emote>, name: Seq<char>, data: Option<Vec<u16>>) -> bool {
    if before.contains_key(name) {
        after == before.insert(name, emote_after_load(before[name], data))
    } else {
        after == before
    }
}

/// The emote loader once an image has arrived for entry `name` of a map: the
/// emote found there, under its own name, is no longer in flight; nothing
/// changes when the map has no such entry.
pub open spec fn loader_after(before: Map<Seq<char>, ()>, after: Map<Seq<char>, ()>, map: Map<Seq<char>, Emote>, name: Seq<char>) -> bool {
    if map.contains_key(name) {
        after == before.remove(map[name].name@)
    } else {
        after == before
    }
}

/// Takes in an image for an emote of a map.
pub fn update_in_map(map: &mut NameMap<Emote>, name: &str, data: Option<Vec<u16>>, loader: &mut EmoteLoader) -> (found: bool)
    requires
        old(map).wf(),
        old(loader).loading_emotes.wf(),
        delays_fit(data),
    ensures
        final(map).wf(),
        final(loader).loading_emotes.wf(),
        found == old(map)@.contains_key(name@),
        image_loaded_in(old(map)@, final(map)@, name@, data),
        final(map).key_list() == old(map).key_list(),
        loader_after(old(loader).loading_emotes@, final(loader).loading_emotes@, old(map)@, name@),
{
    match map.position(name) {
        Some(i) => {
            proof {
                map.lemma_wf();
            }
            let e = map.value_mut_at(i);
            load_emote_data(e, data, loader);
            true
        },
        None => false,
    }
}

/// A list of emotes, each marked as coming from `source`, under the same names.
pub open spec fn sourced(before: NameMap<Emote>, after: NameMap<Emote>, source: EmoteSource) -> bool {
    &&& after.wf()
    &&& after.key_list() == before.key_list()
    &&& after@.dom() == before@.dom()
    &&& forall|k: Seq<char>| #[trigger] after@.contains_key(k) ==> after@[k] == (Emote { source: source, ..before@[k] })
}

/// Marks every emote of a list as coming from `source`.
pub fn set_source(emotes: &mut NameMap<Emote>, source: EmoteSource)
    requires
        old(emotes).wf(),
    ensures
        sourced(*old(emotes), *final(emotes), source),
{
    let ghost before = *emotes;
    proof {
        before.lemma_wf();
    }
    let n = emotes.len();
    let mut i: usize = 0;
    while i < n
        invariant
            emotes.wf(),
            before.wf(),
            n == before.key_list().len(),
            i <= n,
            emotes.key_list() == before.key_list(),
            emotes.value_list().len() == n,
            forall|j: int| 0 <= j < i ==> #[trigger] emotes.value_list()[j] == (Emote { source: source, ..before.value_list()[j] }),
            forall|j: int| i <= j < n ==> #[trigger] emotes.value_list()[j] == before.value_list()[j],
        decreases n - i,
    {
        proof {
            emotes.lemma_wf();
        }
        let e = emotes.value_mut_at(i);
        e.source = source;
        i += 1;
    }
    proof {
        emotes.lemma_wf();
        assert forall|k: Seq<char>| #[trigger] emotes@.contains_key(k) implies emotes@[k] == (Emote { source: source, ..before@[k] }) by {
            let j = choose|j: int| 0 <= j < n && emotes.key_list()[j] == k;
            assert(before.key_list().contains(k));
        }
        assert(emotes@.dom() =~= before@.dom()) by {
            assert forall|k: Seq<char>| emotes@.contains_key(k) <==> before@.contains_key(k) by {
                assert(emotes@.contains_key(k) <==> emotes.key_list().contains(k));
                assert(before@.contains_key(k) <==> before.key_list().contains(k));
            }
        }
    }
}

/// The map once a list has been inserted over it, key by key.
pub open spec fn inserted_over(before: Map<Seq<char>, Emote>, list: Map<Seq<char>, Emote>, after: Map<Seq<char>, Emote>) -> bool {
    &&& after.dom() == before.dom().union(list.dom())
    &&& forall|k: Seq<char>| #[trigger] after.contains_key(k) ==> after[k] == if list.contains_key(k) {
        list[k]
    } else {
        before[k]
    }
}

/// Inserts every emote of a list into a map, under its key.
pub fn insert_all_of(map: &mut NameMap<Emote>, list: NameMap<Emote>)
    requires
        old(map).wf(),
        list.wf(),
    ensures
        final(map).wf(),
        inserted_over(old(map)@, list@, final(map)@),
{
    let ghost start = map@;
    let ghost lv = list@;
    let ghost kl = list.key_list();
    let ghost vl = list.value_list();
    proof {
        list.lemma_wf();
    }
    let (keys, vals) = list.into_entries();
    let mut keys = keys;
    let mut vals = vals;
    let n = keys.len();
    let mut i: usize = 0;
    while i < n
        invariant
            map.wf(),
            n == kl.len(),
            kl.len() == vl.len(),
            i <= n,
            kl.no_duplicates(),
            forall|k: Seq<char>| #[trigger] lv.contains_key(k) <==> kl.contains(k),
            forall|j: int| 0 <= j < kl.len() ==> #[trigger] lv[kl[j]] == vl[j],
            keys@.len() == n - i,
            vals@.len() == n - i,
            views(keys@) == kl.skip(i as int),
            vals@ == vl.skip(i as int),
            map@.dom() == start.dom().union(kl.take(i as int).to_set()),
            forall|k: Seq<char>| #[trigger] map@.contains_key(k) ==> map@[k] == if kl.take(i as int).contains(k) {
                lv[k]
            } else {
                start[k]
            },
        decreases n - i,
    {
        let k = keys.remove(0);
        let v = vals.remove(0);
        proof {
            assert(views(keys@) =~= kl.skip(i + 1)) by {
                assert forall|j: int| 0 <= j < keys@.len() implies views(keys@)[j] == kl.skip(i + 1)[j] by {
                    assert(kl.skip(i as int)[j + 1] == kl.skip(i + 1)[j]);
                }
            }
            assert(vals@ =~= vl.skip(i + 1));
            assert(k@ == kl.skip(i as int)[0]);
            assert(k@ == kl[i as int]);
            assert(v == vl[i as int]);
            assert(kl.take(i + 1) == kl.take(i as int).push(kl[i as int]));
            crate::selector::lemma_push_contains(kl.take(i as int), kl[i as int]);
        }
        let ghost before = map@;
        map.insert(k, v);
        proof {
            assert(map@.dom() =~= start.dom().union(kl.take(i + 1).to_set()));
        }
        i += 1;
    }
    proof {
        assert(kl.take(n as int) == kl);
        assert(map@.dom() =~= start.dom().union(lv.dom())) by {
            assert forall|k: Seq<char>| kl.to_set().contains(k) <==> lv.dom().contains(k) by {}
        }
    }
}

} // verus!

verus! {

/// A provider's emotes after an image arrives for one of them.
pub open spec fn provider_image_step(
    s: ChatState,
    n: ChatState,
    p: ProviderName,
    name: Seq<char>,
    data: Option<Vec<u16>>,
    badge: bool,
) -> bool {
    &&& n.channels == s.channels
    &&& n.chat_histories == s.chat_histories
    &&& n.global_emotes == s.global_emotes
    &&& n.auth_tokens == s.auth_tokens
    &&& n.channel_tab_list == s.channel_tab_list
    &&& forall|q: ProviderName| q != p ==> #[trigger] n.providers.spec_get(q) == s.providers.spec_get(q)
    &&& match s.providers.spec_get(p) {
        Some(pv) => if badge {
            match pv.global_badges {
                Some(b) => exists|b2: NameMap<Emote>| {
                    &&& n.providers.spec_get(p) == Some(Provider { global_badges: Some(b2), ..pv })
                    &&& #[trigger] image_loaded_in(b@, b2@, name, data)
                    &&& loader_after(s.emote_loader.loading_emotes@, n.emote_loader.loading_emotes@, b@, name)
                },
                None => n.providers == s.providers && n.emote_loader == s.emote_loader,
            }
        } else {
            exists|m2: NameMap<Emote>| {
                &&& n.providers.spec_get(p) == Some(Provider { emotes: m2, ..pv })
                &&& #[trigger] image_loaded_in(pv.emotes@, m2@, name, data)
                &&& loader_after(s.emote_loader.loading_emotes@, n.emote_loader.loading_emotes@, pv.emotes@, name)
            }
        },
        None => n.providers == s.providers && n.emote_loader == s.emote_loader,
    }
}

/// A channel's emotes (or badges) after an image arrives for one of them.
pub open spec fn channel_image_step(
    s: ChatState,
    n: ChatState,
    ch: Seq<char>,
    name: Seq<char>,
    data: Option<Vec<u16>>,
    badge: bool,
) -> bool {
    &&& n.providers == s.providers
    &&& n.chat_histories == s.chat_histories
    &&& n.global_emotes == s.global_emotes
    &&& n.auth_tokens == s.auth_tokens
    &&& n.channel_tab_list == s.channel_tab_list
    &&& if s.channels@.contains_key(ch) && s.channels@[ch].spec_shared().transient is Some
        && chosen_map(s.channels@[ch].spec_shared().transient->0, badge) is Some {
        let c = s.channels@[ch];
        let t = c.spec_shared().transient->0;
        exists|m2: NameMap<Emote>| {
            &&& n.channels@ == s.channels@.insert(ch, c.with_shared(ChannelShared {
                transient: Some(with_chosen(t, badge, m2)),
                ..c.spec_shared()
            }))
            &&& #[trigger] image_loaded_in(chosen_map(t, badge)->0@, m2@, name, data)
            &&& loader_after(s.emote_loader.loading_emotes@, n.emote_loader.loading_emotes@, chosen_map(t, badge)->0@, name)
        }
    } else {
        n.channels@ == s.channels@ && n.channels.key_list() == s.channels.key_list() && n.emote_loader == s.emote_loader
    }
}

} // verus!

verus! {

/// What an image arriving for a global emote does.
pub open spec fn global_image_step(s: ChatState, n: ChatState, name: String, data: Option<Vec<u16>>) -> bool {
    &&& image_loaded_in(s.global_emotes@, n.global_emotes@, name@, data)
    &&& loader_after(s.emote_loader.loading_emotes@, n.emote_loader.loading_emotes@, s.global_emotes@, name@)
    &&& n.providers == s.providers
    &&& n.channels == s.channels
    &&& n.chat_histories == s.chat_histories
    &&& n.auth_tokens == s.auth_tokens
    &&& n.channel_tab_list == s.channel_tab_list
}

/// What the global emote list arriving does.
pub open spec fn global_list_step(s: ChatState, n: ChatState, response: Result<NameMap<Emote>, String>) -> bool {
    &&& match response {
        Ok(m) => inserted_sourced(s.global_emotes@, m@, n.global_emotes@, EmoteSource::Global),
        Err(_) => n.global_emotes == s.global_emotes,
    }
    &&& n.providers == s.providers
    &&& n.channels == s.channels
    &&& n.chat_histories == s.chat_histories
    &&& n.emote_loader == s.emote_loader
    &&& n.auth_tokens == s.auth_tokens
    &&& n.channel_tab_list == s.channel_tab_list
}

/// What Twitch's global badge list arriving does.
pub open spec fn badge_list_step(s: ChatState, n: ChatState, response: Result<NameMap<Emote>, String>) -> bool {
    &&& match (response, s.providers.twitch) {
        (Ok(m), Some(p)) => exists|m2: NameMap<Emote>| {
            &&& #[trigger] sourced(m, m2, EmoteSource::GlobalBadge)
            &&& n.providers == (ProviderMap { twitch: Some(Provider { global_badges: Some(m2), ..p }), ..s.providers })
        },
        _ => n.providers == s.providers,
    }
    &&& n.global_emotes == s.global_emotes
    &&& n.channels == s.channels
    &&& n.chat_histories == s.chat_histories
    &&& n.emote_loader == s.emote_loader
    &&& n.auth_tokens == s.auth_tokens
    &&& n.channel_tab_list == s.channel_tab_list
}

/// What the user's Twitch emote sets arriving does.
pub open spec fn emote_set_step(s: ChatState, n: ChatState, response: Result<NameMap<Emote>, String>) -> bool {
    &&& match (response, s.providers.twitch) {
        (Ok(m), Some(p)) => {
            &&& n.providers.twitch is Some
            &&& emote_set_added(p, n.providers.twitch->0, m.value_list())
            &&& n.providers.dgg == s.providers.dgg
            &&& n.providers.youtube == s.providers.youtube
        },
        _ => n.providers == s.providers,
    }
    &&& n.global_emotes == s.global_emotes
    &&& n.channels == s.channels
    &&& n.chat_histories == s.chat_histories
    &&& n.emote_loader == s.emote_loader
    &&& n.auth_tokens == s.auth_tokens
    &&& n.channel_tab_list == s.channel_tab_list
}

/// What a channel's emote (or badge) list arriving does.
pub open spec fn channel_list_step(s: ChatState, n: ChatState, channel: String, response: Result<NameMap<Emote>, String>, badge: bool) -> bool {
    &&& if s.channels@.contains_key(channel@) {
        &&& n.channels@.dom() == s.channels@.dom()
        &&& forall|k: Seq<char>| #[trigger] s.channels@.contains_key(k) && k != channel@ ==>
            n.channels@[k] == s.channels@[k]
        &&& list_set(s.channels@[channel@], n.channels@[channel@], response, badge)
    } else {
        n.channels == s.channels
    }
    &&& n.providers == s.providers
    &&& n.global_emotes == s.global_emotes
    &&& n.chat_histories == s.chat_histories
    &&& n.emote_loader == s.emote_loader
    &&& n.auth_tokens == s.auth_tokens
    &&& n.channel_tab_list == s.channel_tab_list
}

/// The image of an emote of an optional map arriving.
fn update_in_opt_map(map: &mut Option<NameMap<Emote>>, name: &str, data: Option<Vec<u16>>, loader: &mut EmoteLoader)
    requires
        opt_map_wf(*old(map)),
        old(loader).loading_emotes.wf(),
        delays_fit(data),
    ensures
        opt_map_wf(*final(map)),
        final(loader).loading_emotes.wf(),
        match *old(map) {
            Some(m) => (*final(map)) is Some && image_loaded_in(m@, (*final(map))->0@, name@, data)
                && loader_after(old(loader).loading_emotes@, final(loader).loading_emotes@, m@, name@),
            None => *final(map) == *old(map) && final(loader).loading_emotes == old(loader).loading_emotes,
        },
{
    match map {
        Some(m) => {
            update_in_map(m, name, data, loader);
        },
        None => {},
    }
}

impl ChatState {
    /// An image arriving for a global emote.
    pub fn global_image_loaded(&mut self, name: &String, data: Option<Vec<u16>>)
        requires
            old(self).wf(),
            delays_fit(data),
        ensures
            final(self).wf(),
            global_image_step(*old(self), *final(self), *name, data),

    {
        update_in_map(&mut self.global_emotes, name.as_str(), data, &mut self.emote_loader);
    }

    /// An image arriving for an emote, or a global badge, of a provider.
    pub fn provider_image_loaded(&mut self, p: ProviderName, name: &String, data: Option<Vec<u16>>, badge: bool)
        requires
            old(self).wf(),
            delays_fit(data),
        ensures
            final(self).wf(),
            provider_image_step(*old(self), *final(self), p, name@, data, badge),
    {
        let ghost s = *self;
        assert(self.providers.spec_get(ProviderName::Twitch) matches Some(v) ==> provider_wf(v));
        assert(self.providers.spec_get(ProviderName::YouTube) matches Some(v) ==> provider_wf(v));
        assert(self.providers.spec_get(ProviderName::DGG) matches Some(v) ==> provider_wf(v));
        let slot = match p {
            ProviderName::Twitch => &mut self.providers.twitch,
            ProviderName::DGG => &mut self.providers.dgg,
            ProviderName::YouTube => &mut self.providers.youtube,
        };
        match slot {
            Some(pv) => {
                if badge {
                    update_in_opt_map(&mut pv.global_badges, name.as_str(), data, &mut self.emote_loader);
                } else {
                    update_in_map(&mut pv.emotes, name.as_str(), data, &mut self.emote_loader);
                }
            },
            None => {},
        }
        proof {
            assert forall|q: ProviderName| (#[trigger] self.providers.spec_get(q)) is Some implies provider_wf(self.providers.spec_get(q)->0) by {
                match q {
                    ProviderName::Twitch => {},
                    ProviderName::DGG => {},
                    ProviderName::YouTube => {},
                }
            }
            match s.providers.spec_get(p) {
                Some(pv) => {
                    let np = self.providers.spec_get(p)->0;
                    if badge {
                        if pv.global_badges is Some {
                            assert(image_loaded_in(pv.global_badges->0@, np.global_badges->0@, name@, data));
                        }
                    } else {
                        assert(image_loaded_in(pv.emotes@, np.emotes@, name@, data));
                    }
                },
                None => {},
            }
        }
    }

    /// An image arriving for an emote, or a badge, of a channel.
    pub fn channel_image_loaded(&mut self, channel: &String, name: &String, data: Option<Vec<u16>>, badge: bool)
        requires
            old(self).wf(),
            delays_fit(data),
        ensures
            final(self).wf(),
            channel_image_step(*old(self), *final(self), channel@, name@, data, badge),
    {
        let ghost s = *self;
        if let Some(ci) = self.channels.position(channel.as_str()) {
            proof {
                self.channels.lemma_wf();
            }
            let c = self.channels.value_mut_at(ci);
            let ghost c0 = *c;
            assert(c0.wf());
            let shared = c.shared_mut();
            match &mut shared.transient {
                Some(t) => {
                    if badge {
                        update_in_opt_map(&mut t.badge_emotes, name.as_str(), data, &mut self.emote_loader);
                    } else {
                        update_in_opt_map(&mut t.channel_emotes, name.as_str(), data, &mut self.emote_loader);
                    }
                },
                None => {},
            }
            proof {
                let ch = channel@;
                if s.channels@[ch].spec_shared().transient is Some {
                    let t = s.channels@[ch].spec_shared().transient->0;
                    let nt = self.channels@[ch].spec_shared().transient->0;
                    if badge && t.badge_emotes is Some {
                        assert(image_loaded_in(chosen_map(t, badge)->0@, nt.badge_emotes->0@, name@, data));
                        assert(with_chosen(t, badge, nt.badge_emotes->0) == nt);
                    } else if !badge && t.channel_emotes is Some {
                        assert(image_loaded_in(chosen_map(t, badge)->0@, nt.channel_emotes->0@, name@, data));
                        assert(with_chosen(t, badge, nt.channel_emotes->0) == nt);
                    } else {
                        assert(self.channels@ =~= s.channels@);
                    }
                } else {
                    assert(self.channels@ =~= s.channels@);
                }
                assert forall|k: Seq<char>| #[trigger] self.channels@.contains_key(k) implies self.channels@[k].wf() by {
                    if k != ch {
                        assert(s.channels@.contains_key(k));
                    }
                }
            }
        }
    }
}

} // verus!

verus! {

/// A list's emotes inserted over a map, each marked as coming from `source`.
pub open spec fn inserted_sourced(before: Map<Seq<char>, Emote>, list: Map<Seq<char>, Emote>, after: Map<Seq<char>, Emote>, source: EmoteSource) -> bool {
    &&& after.dom() == before.dom().union(list.dom())
    &&& forall|k: Seq<char>| #[trigger] after.contains_key(k) ==> after[k] == if list.contains_key(k) {
        Emote { source: source, ..list[k] }
    } else {
        before[k]
    }
}

/// The position of the first emote named `k`.
pub open spec fn first_named(vals: Seq<Emote>, k: Seq<char>) -> Option<int>
    decreases vals.len(),
{
    if vals.len() == 0 {
        None
    } else {
        match first_named(vals.drop_last(), k) {
            Some(i) => Some(i),
            None => if vals.last().name@ == k { Some(vals.len() - 1) } else { None },
        }
    }
}

/// The user's Twitch emote sets arriving: every emote of the sets counts as a
/// subscriber emote, and those whose names the provider does not know yet are
/// added, as Twitch emotes (of two of one name, the first).
pub open spec fn emote_set_added(p: Provider, np: Provider, vals: Seq<Emote>) -> bool {
    &&& np == Provider { emotes: np.emotes, my_sub_emotes: np.my_sub_emotes, ..p }
    &&& np.my_sub_emotes@.dom() == p.my_sub_emotes@.dom().union(Set::new(|k: Seq<char>| first_named(vals, k) is Some))
    &&& np.emotes@.dom() == p.emotes@.dom().union(Set::new(|k: Seq<char>| first_named(vals, k) is Some))
    &&& forall|k: Seq<char>| #[trigger] np.emotes@.contains_key(k) ==> np.emotes@[k] == if p.emotes@.contains_key(k) {
        p.emotes@[k]
    } else {
        Emote { source: EmoteSource::Twitch, ..vals[first_named(vals, k)->0] }
    }
}

proof fn lemma_first_named_bound(vals: Seq<Emote>, k: Seq<char>)
    ensures
        first_named(vals, k) matches Some(i) ==> 0 <= i < vals.len() && vals[i].name@ == k,
    decreases vals.len(),
{
    if vals.len() > 0 {
        lemma_first_named_bound(vals.drop_last(), k);
    }
}

/// Takes in the emotes of the user's emote sets.
fn add_emote_set(p: &mut Provider, set: NameMap<Emote>)
    requires
        provider_wf(*old(p)),
        set.wf(),
    ensures
        provider_wf(*final(p)),
        emote_set_added(*old(p), *final(p), set.value_list()),
{
    let ghost start = *p;
    let ghost vals = set.value_list();
    let (_keys, vals_v) = set.into_entries();
    let mut vs = vals_v;
    let n = vs.len();
    let mut i: usize = 0;
    while i < n
        invariant
            provider_wf(*p),
            n == vals.len(),
            i <= n,
            vs@.len() == n - i,
            vs@ == vals.skip(i as int),
            *p == (Provider { emotes: p.emotes, my_sub_emotes: p.my_sub_emotes, ..start }),
            p.my_sub_emotes@.dom() == start.my_sub_emotes@.dom().union(Set::new(|k: Seq<char>| first_named(vals.take(i as int), k) is Some)),
            p.emotes@.dom() == start.emotes@.dom().union(Set::new(|k: Seq<char>| first_named(vals.take(i as int), k) is Some)),
            forall|k: Seq<char>| #[trigger] p.emotes@.contains_key(k) ==> p.emotes@[k] == if start.emotes@.contains_key(k) {
                start.emotes@[k]
            } else {
                Emote { source: EmoteSource::Twitch, ..vals.take(i as int)[first_named(vals.take(i as int), k)->0] }
            },
        decreases n - i,
    {
        let mut e = vs.remove(0);
        proof {
            assert(e == vals[i as int]);
            assert(vs@ =~= vals.skip(i + 1));
            assert(vals.take(i + 1).drop_last() == vals.take(i as int));
            assert(vals.take(i + 1).last() == vals[i as int]);
        }
        let ghost before = *p;
        let ghost ev = e;
        e.source = EmoteSource::Twitch;
        p.my_sub_emotes.insert(e.name.clone(), ());
        if !p.emotes.contains_key(e.name.as_str()) {
            p.emotes.insert(e.name.clone(), e);
        }
        proof {
            let t = vals.take(i + 1);
            let t0 = vals.take(i as int);
            assert forall|k: Seq<char>| first_named(t, k) is Some <==> (first_named(t0, k) is Some || k == ev.name@) by {}
            assert(p.my_sub_emotes@.dom() =~= start.my_sub_emotes@.dom().union(Set::new(|k: Seq<char>| first_named(t, k) is Some)));
            assert(p.emotes@.dom() =~= start.emotes@.dom().union(Set::new(|k: Seq<char>| first_named(t, k) is Some)));
            assert forall|k: Seq<char>| #[trigger] p.emotes@.contains_key(k) implies p.emotes@[k] == if start.emotes@.contains_key(k) {
                start.emotes@[k]
            } else {
                Emote { source: EmoteSource::Twitch, ..t[first_named(t, k)->0] }
            } by {
                lemma_first_named_bound(t0, k);
                if before.emotes@.contains_key(k) {
                    if !start.emotes@.contains_key(k) {
                        assert(first_named(t0, k) is Some);
                        assert(t[first_named(t0, k)->0] == t0[first_named(t0, k)->0]);
                    }
                }
            }
        }
        i += 1;
    }
    assert(vals.take(n as int) == vals);
}

impl ChatState {
    /// The global emote list arriving: its emotes, marked global, are added
    /// over the known ones. A failed download changes nothing.
    pub fn global_emote_list(&mut self, response: Result<NameMap<Emote>, String>)
        requires
            old(self).wf(),
            response matches Ok(m) ==> m.wf(),
        ensures
            final(self).wf(),
            global_list_step(*old(self), *final(self), response),

    {
        match response {
            Ok(mut m) => {
                let ghost m0 = m;
                set_source(&mut m, EmoteSource::Global);
                insert_all_of(&mut self.global_emotes, m);
            },
            Err(_) => {},
        }
    }

    /// Twitch's global badge list arriving: marked as global badges, it
    /// becomes the Twitch provider's. A failed download changes nothing.
    pub fn global_badge_list(&mut self, response: Result<NameMap<Emote>, String>)
        requires
            old(self).wf(),
            response matches Ok(m) ==> m.wf(),
        ensures
            final(self).wf(),
            badge_list_step(*old(self), *final(self), response),

    {
        assert(self.providers.spec_get(ProviderName::Twitch) matches Some(v) ==> provider_wf(v));
        assert(self.providers.spec_get(ProviderName::YouTube) matches Some(v) ==> provider_wf(v));
        assert(self.providers.spec_get(ProviderName::DGG) matches Some(v) ==> provider_wf(v));
        match response {
            Ok(mut m) => {
                let ghost m0 = m;
                set_source(&mut m, EmoteSource::GlobalBadge);
                let ghost m1 = m;
                match &mut self.providers.twitch {
                    Some(p) => {
                        p.global_badges = Some(m);
                    },
                    None => {},
                }
                assert(sourced(m0, m1, EmoteSource::GlobalBadge));
            },
            Err(_) => {},
        }
        proof {
            assert forall|q: ProviderName| (#[trigger] self.providers.spec_get(q)) is Some implies provider_wf(self.providers.spec_get(q)->0) by {
                match q {
                    ProviderName::Twitch => {},
                    ProviderName::DGG => {},
                    ProviderName::YouTube => {},
                }
            }
        }
    }

    /// The user's Twitch emote sets arriving (see `emote_set_added`). A failed
    /// download changes nothing.
    pub fn emote_set_list(&mut self, response: Result<NameMap<Emote>, String>)
        requires
            old(self).wf(),
            response matches Ok(m) ==> m.wf(),
        ensures
            final(self).wf(),
            emote_set_step(*old(self), *final(self), response),

    {
        assert(self.providers.spec_get(ProviderName::Twitch) matches Some(v) ==> provider_wf(v));
        assert(self.providers.spec_get(ProviderName::YouTube) matches Some(v) ==> provider_wf(v));
        assert(self.providers.spec_get(ProviderName::DGG) matches Some(v) ==> provider_wf(v));
        match response {
            Ok(m) => match &mut self.providers.twitch {
                Some(p) => add_emote_set(p, m),
                None => {},
            },
            Err(_) => {},
        }
        proof {
            assert forall|q: ProviderName| (#[trigger] self.providers.spec_get(q)) is Some implies provider_wf(self.providers.spec_get(q)->0) by {
                match q {
                    ProviderName::Twitch => {},
                    ProviderName::DGG => {},
                    ProviderName::YouTube => {},
                }
            }
        }
    }

    /// A channel's emote (or badge) list arriving (see `list_set`).
    pub fn channel_list(&mut self, channel: &String, response: Result<NameMap<Emote>, String>, badge: bool)
        requires
            old(self).wf(),
            response matches Ok(m) ==> m.wf(),
        ensures
            final(self).wf(),
            channel_list_step(*old(self), *final(self), *channel, response, badge),

    {
        let ghost s = *self;
        if let Some(ci) = self.channels.position(channel.as_str()) {
            proof {
                self.channels.lemma_wf();
            }
            let c = self.channels.value_mut_at(ci);
            assert(c.wf());
            if badge {
                c.set_badges(response);
            } else {
                c.set_emotes(response);
            }
            proof {
                assert(self.channels@.dom() =~= s.channels@.dom());
                assert forall|k: Seq<char>| #[trigger] self.channels@.contains_key(k) implies self.channels@[k].wf() by {
                    if k != channel@ {
                        assert(s.channels@.contains_key(k));
                    }
                }
            }
        }
    }
}

} // verus!

verus! {

/// An answer the state can take in: its frame delays fit an animation length,
/// and its lists are well formed.
pub open spec fn response_ok(r: EmoteResponse) -> bool {
    match r {
        EmoteResponse::GlobalEmoteImageLoaded { data, .. } => delays_fit(data),
        EmoteResponse::GlobalBadgeImageLoaded { data, .. } => delays_fit(data),
        EmoteResponse::ChannelEmoteImageLoaded { data, .. } => delays_fit(data),
        EmoteResponse::ChannelBadgeImageLoaded { data, .. } => delays_fit(data),
        EmoteResponse::TwitchMsgEmoteLoaded { data, .. } => delays_fit(data),
        EmoteResponse::YouTubeMsgEmoteLoaded { data, .. } => delays_fit(data),
        EmoteResponse::ChannelEmoteListResponse { response, .. } => response matches Ok(m) ==> m.wf(),
        EmoteResponse::ChannelBadgeListResponse { response, .. } => response matches Ok(m) ==> m.wf(),
        EmoteResponse::TwitchEmoteSetResponse { response, .. } => response matches Ok(m) ==> m.wf(),
        EmoteResponse::GlobalEmoteListResponse { response } => response matches Ok(m) ==> m.wf(),
        EmoteResponse::TwitchGlobalBadgeListResponse { response } => response matches Ok(m) ==> m.wf(),
    }
}

/// What an answer of the emote loader does to the state.
pub open spec fn response_step(s: ChatState, n: ChatState, r: EmoteResponse) -> bool {
    match r {
        EmoteResponse::GlobalEmoteImageLoaded { name, data } => global_image_step(s, n, name, data),
        EmoteResponse::GlobalBadgeImageLoaded { name, data } => provider_image_step(s, n, ProviderName::Twitch, name@, data, true),
        EmoteResponse::ChannelEmoteImageLoaded { name, channel_name, data } => channel_image_step(s, n, channel_name@, name@, data, false),
        EmoteResponse::ChannelBadgeImageLoaded { name, channel_name, data } => channel_image_step(s, n, channel_name@, name@, data, true),
        EmoteResponse::TwitchMsgEmoteLoaded { name, data, .. } => provider_image_step(s, n, ProviderName::Twitch, name@, data, false),
        EmoteResponse::YouTubeMsgEmoteLoaded { name, data } => provider_image_step(s, n, ProviderName::YouTube, name@, data, false),
        EmoteResponse::ChannelEmoteListResponse { channel_name, response } => channel_list_step(s, n, channel_name, response, false),
        EmoteResponse::ChannelBadgeListResponse { channel_name, response } => channel_list_step(s, n, channel_name, response, true),
        EmoteResponse::TwitchEmoteSetResponse { response, .. } => emote_set_step(s, n, response),
        EmoteResponse::GlobalEmoteListResponse { response } => global_list_step(s, n, response),
        EmoteResponse::TwitchGlobalBadgeListResponse { response } => badge_list_step(s, n, response),
    }
}

impl ChatState {
    /// Takes in an answer of the emote loader.
    pub fn handle_emote_response(&mut self, r: EmoteResponse)
        requires
            old(self).wf(),
            response_ok(r),
        ensures
            final(self).wf(),
            response_step(*old(self), *final(self), r),
    {
        match r {
            EmoteResponse::GlobalEmoteImageLoaded { name, data } => self.global_image_loaded(&name, data),
            EmoteResponse::GlobalBadgeImageLoaded { name, data } => self.provider_image_loaded(ProviderName::Twitch, &name, data, true),
            EmoteResponse::ChannelEmoteImageLoaded { name, channel_name, data } => self.channel_image_loaded(&channel_name, &name, data, false),
            EmoteResponse::ChannelBadgeImageLoaded { name, channel_name, data } => self.channel_image_loaded(&channel_name, &name, data, true),
            EmoteResponse::TwitchMsgEmoteLoaded { name, data, .. } => self.provider_image_loaded(ProviderName::Twitch, &name, data, false),
            EmoteResponse::YouTubeMsgEmoteLoaded { name, data } => self.provider_image_loaded(ProviderName::YouTube, &name, data, false),
            EmoteResponse::ChannelEmoteListResponse { channel_name, response } => self.channel_list(&channel_name, response, false),
            EmoteResponse::ChannelBadgeListResponse { channel_name, response } => self.channel_list(&channel_name, response, true),
            EmoteResponse::TwitchEmoteSetResponse { response, .. } => self.emote_set_list(response),
            EmoteResponse::GlobalEmoteListResponse { response } => self.global_emote_list(response),
            EmoteResponse::TwitchGlobalBadgeListResponse { response } => self.global_badge_list(response),
        }
    }

    /// Closes a channel: it is removed, with its tab, and the message that
    /// makes the Twitch chat session leave it is given (it goes to the
    /// session whenever there is one, whatever the channel's provider).
    pub fn remove_channel(&mut self, channel: &String) -> (r: crate::model::OutgoingMessage)
        requires
            old(self).wf(),
        ensures
            r matches crate::model::OutgoingMessage::Leave { channel_name } && channel_name@ == channel@,
            final(self).wf(),
            final(self).channels@ == old(self).channels@.remove(channel@),
            views(final(self).channel_tab_list@) == views(old(self).channel_tab_list@).filter(|t: Seq<char>| t != channel@),
            final(self).providers == old(self).providers,
            final(self).global_emotes == old(self).global_emotes,
            final(self).chat_histories == old(self).chat_histories,
            final(self).emote_loader == old(self).emote_loader,
            final(self).auth_tokens == old(self).auth_tokens,
    {
        let ghost s = *self;
        self.channels.remove(channel.as_str());
        let mut tabs: Vec<String> = Vec::new();
        let ghost old_tabs = views(self.channel_tab_list@);
        let mut i: usize = 0;
        while i < self.channel_tab_list.len()
            invariant
                i <= self.channel_tab_list@.len(),
                old_tabs == views(self.channel_tab_list@),
                views(tabs@) == old_tabs.take(i as int).filter(|t: Seq<char>| t != channel@),
            decreases self.channel_tab_list@.len() - i,
        {
            proof {
                assert(old_tabs.take(i + 1) == old_tabs.take(i as int).push(old_tabs[i as int]));
                old_tabs.take(i as int).lemma_filter_push(old_tabs[i as int], |t: Seq<char>| t != channel@);
            }
            let ghost before = tabs@;
            if !crate::text::str_eq(self.channel_tab_list[i].as_str(), channel.as_str()) {
                tabs.push(self.channel_tab_list[i].clone());
                assert(views(tabs@) == views(before).push(self.channel_tab_list@[i as int]@));
            }
            i += 1;
        }
        assert(old_tabs.take(old_tabs.len() as int) == old_tabs);
        self.channel_tab_list = tabs;
        proof {
            assert forall|k: Seq<char>| #[trigger] self.channels@.contains_key(k) implies self.channels@[k].wf() by {
                assert(s.channels@.contains_key(k));
            }
        }
        crate::model::OutgoingMessage::Leave { channel_name: channel.clone() }
    }
}

} // verus!
